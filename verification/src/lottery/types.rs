//! The records of the e-invoice lottery: tickets, draws and their
//! configuration, prize tiers and reveal commitments.
use vstd::prelude::*;
use crate::primitives::{copy_vec, BlockNumber, Commitment, FiatAmount, Hash32, TaxKind};

verus! {

/// Identifier of a draw.
pub type DrawId = u64;

/// Identifier of a lottery period.
pub type PeriodId = u64;

/// A registered ticket: the draw it entered, the owner's commitment and the
/// block it was registered at.
#[derive(Clone, Copy, Debug, PartialEq, Eq)]
pub struct LotteryTicket {
    pub draw: DrawId,
    pub owner_commitment: Commitment,
    pub registered_at: BlockNumber,
}

/// The life cycle of a draw.
#[derive(Clone, Copy, Debug, PartialEq, Eq)]
pub enum DrawState {
    Pending,
    Open,
    Drawing,
    Drawn,
    Settled,
    Cancelled,
}

/// A prize tier: its share of the pool in parts per million, the number of
/// winners and the cap per winner.
#[derive(Clone, Copy, Debug, PartialEq, Eq)]
pub struct PrizeTier {
    pub tier_id: u8,
    pub share_ppm: u32,
    pub winners: u32,
    pub unit_cap: FiatAmount,
}

/// The configuration a draw runs under.
#[derive(Clone, Debug, PartialEq, Eq)]
pub struct DrawConfig {
    pub period_blocks: BlockNumber,
    pub eligible_kinds: Vec<TaxKind>,
    pub tax_ratio_ppm: u32,
    pub reserve_cap_ppm: u32,
    pub tiers: Vec<PrizeTier>,
    pub allow_foreign: bool,
    pub commit_deadline: BlockNumber,
    pub reveal_deadline: BlockNumber,
    pub finalize_block: BlockNumber,
    pub claim_window: BlockNumber,
}

/// What a configuration denotes.
pub struct DrawConfigView {
    pub period_blocks: BlockNumber,
    pub eligible_kinds: Seq<TaxKind>,
    pub tax_ratio_ppm: u32,
    pub reserve_cap_ppm: u32,
    pub tiers: Seq<PrizeTier>,
    pub allow_foreign: bool,
    pub commit_deadline: BlockNumber,
    pub reveal_deadline: BlockNumber,
    pub finalize_block: BlockNumber,
    pub claim_window: BlockNumber,
}

impl View for DrawConfig {
    type V = DrawConfigView;

    open spec fn view(&self) -> DrawConfigView {
        DrawConfigView {
            period_blocks: self.period_blocks,
            eligible_kinds: self.eligible_kinds@,
            tax_ratio_ppm: self.tax_ratio_ppm,
            reserve_cap_ppm: self.reserve_cap_ppm,
            tiers: self.tiers@,
            allow_foreign: self.allow_foreign,
            commit_deadline: self.commit_deadline,
            reveal_deadline: self.reveal_deadline,
            finalize_block: self.finalize_block,
            claim_window: self.claim_window,
        }
    }
}

impl DrawConfig {
    /// A copy of the configuration.
    pub fn copy(&self) -> (r: DrawConfig)
        ensures
            r@ == self@,
    {
        DrawConfig {
            period_blocks: self.period_blocks,
            eligible_kinds: copy_vec(self.eligible_kinds.as_slice()),
            tax_ratio_ppm: self.tax_ratio_ppm,
            reserve_cap_ppm: self.reserve_cap_ppm,
            tiers: copy_vec(self.tiers.as_slice()),
            allow_foreign: self.allow_foreign,
            commit_deadline: self.commit_deadline,
            reveal_deadline: self.reveal_deadline,
            finalize_block: self.finalize_block,
            claim_window: self.claim_window,
        }
    }
}

/// A draw: its configuration, its period, the tax revenue snapshotted at the
/// period's end, and its state.
#[derive(Clone, Debug, PartialEq, Eq)]
pub struct DrawRecord {
    pub config: DrawConfig,
    pub period_start_block: BlockNumber,
    pub period_end_block: BlockNumber,
    pub revenue_snapshot: Option<FiatAmount>,
    pub state: DrawState,
}

/// What a draw record denotes.
pub struct DrawRecordView {
    pub config: DrawConfigView,
    pub period_start_block: BlockNumber,
    pub period_end_block: BlockNumber,
    pub revenue_snapshot: Option<FiatAmount>,
    pub state: DrawState,
}

impl View for DrawRecord {
    type V = DrawRecordView;

    open spec fn view(&self) -> DrawRecordView {
        DrawRecordView {
            config: self.config@,
            period_start_block: self.period_start_block,
            period_end_block: self.period_end_block,
            revenue_snapshot: self.revenue_snapshot,
            state: self.state,
        }
    }
}

impl DrawRecord {
    /// A copy of the record.
    pub fn copy(&self) -> (r: DrawRecord)
        ensures
            r@ == self@,
    {
        DrawRecord {
            config: self.config.copy(),
            period_start_block: self.period_start_block,
            period_end_block: self.period_end_block,
            revenue_snapshot: self.revenue_snapshot,
            state: self.state,
        }
    }
}

/// A reveal commitment of a seed provider.
#[derive(Clone, Copy, Debug, PartialEq, Eq)]
pub struct Commit {
    pub commitment: Hash32,
    pub revealed: bool,
}

} // verus!
