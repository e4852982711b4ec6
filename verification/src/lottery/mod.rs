//! The e-invoice lottery: every anchored invoice of an eligible kind is a
//! ticket, registered with a zero-knowledge eligibility proof and a
//! canonical one-time nullifier; each period's prize pool is a share of the
//! settled VAT revenue, capped by the attested eTWD reserve; the winners are
//! drawn from entropy that committed seed providers reveal (non-revealers are
//! slashed and replaced by a fallback seed), and prizes are claimed with a
//! zero-knowledge ownership proof, once per nullifier.
use vstd::prelude::*;
use crate::origin::{admits, ensure_origin, signer_of, ensure_signed, Origin, OriginRule};
use crate::primitives::{
    AccountId, Balance, BlockNumber, Commitment, FiatAmount, FiatCurrency, Hash32, Nullifier, TaxKind,
    tax_kind_eq, copy_vec,
};
use crate::table::{bytes_eq, Table};
use crate::zk::{is_canonical_scalar, scalar_modulus};
use crate::scale::le_value;
use self::draw::{kind_of, tax_kind_from_u8, receipt_key, receipt_key_of, fallback_seed, fallback_seed_of, compute_entropy, entropy_of, mul_div_ppm, ppm_of, phase, phase_of, Phase, PPM, MAX_ENTRIES, xor32, xor_into, commit_hash, commitment_of};
use self::entries::{sort_hashes, sorted_hashes, select_tier_winners, tier_winners};
use self::types::{Commit, DrawConfig, DrawConfigView, DrawId, DrawRecord, DrawRecordView, DrawState, LotteryTicket, PrizeTier};
use crate::hashing::{blake2_256, blake2_256_of};
use crate::zk::{groth16_bytes_verdict, Fr, VerifyError};
use crate::zk::lottery_eligibility::{self, eligibility_inputs_ok, lemma_eligibility_inputs_unique};
use crate::zk::lottery_ownership::{self, ownership_inputs_ok, lemma_ownership_inputs_unique};

pub mod draw;
pub mod entries;
pub mod types;

verus! {

/// The fixed parameters a runtime gives the lottery.
#[derive(Clone, Copy, Debug)]
pub struct LotteryParams {
    /// The currency prizes are paid in (eTWD).
    pub prize_currency: FiatCurrency,
    /// The highest tax-to-prize ratio governance may set, in ppm.
    pub max_ratio_ppm: u32,
    /// Reveals needed for a valid draw.
    pub min_reveals: u32,
    /// The bond a seed provider reserves when committing.
    pub commit_deposit: Balance,
    /// The age threshold of the eligibility statement.
    pub age_threshold: u32,
    /// How many past block hashes the chain keeps.
    pub block_hash_count: u32,
    /// Who may configure the lottery and fund periods.
    pub governance: OriginRule,
    /// Who may pause it.
    pub emergency: OriginRule,
    /// Who may set the merchant set root.
    pub registrar: OriginRule,
}

/// Events of the lottery.
#[derive(Clone, Copy, Debug, PartialEq, Eq)]
pub enum Event {
    DrawOpened { draw: DrawId },
    TicketRegistered { invoice_hash: Hash32, draw: DrawId },
    Committed { draw: DrawId, who: AccountId },
    Revealed { draw: DrawId, who: AccountId },
    RevenueSnapshotted { draw: DrawId, revenue: FiatAmount },
    EntrySetSealed { draw: DrawId, count: u64 },
    PrizePoolFunded { draw: DrawId, revenue: FiatAmount, pool: FiatAmount },
    PrizePoolCapped { draw: DrawId, pool: FiatAmount },
    DrawCompleted { draw: DrawId, entropy: Hash32 },
    SeedSlashed { draw: DrawId, who: AccountId, amount: Balance },
    PrizeClaimed { receipt_key: Hash32, draw: DrawId, tier: u8, amount: FiatAmount },
    PoolRecycled { draw: DrawId, amount: FiatAmount },
    AutoRefunded { draw: DrawId },
    ExpiredSwept { draw: DrawId, amount: FiatAmount },
    LotteryPaused,
    LotteryResumed,
    DrawCancelled { draw: DrawId },
    EligibilityVkSet,
    OwnershipVkSet,
    MerchantSetRootSet { root: Hash32 },
}

/// Errors of the lottery.
#[derive(Clone, Copy, Debug, PartialEq, Eq)]
pub enum Error {
    /// The origin is not allowed to make the call.
    BadOrigin,
    InvoiceNotAnchored,
    IneligibleInvoiceKind,
    DrawClosed,
    TicketAlreadyRegistered,
    NullifierUsed,
    NonCanonicalNullifier,
    InvalidProof,
    InvalidVk,
    ProofInputMismatch,
    MerchantRootUnset,
    NotAWinner,
    AlreadyClaimed,
    ClaimWindowClosed,
    InsufficientPool,
    CurrencyMismatch,
    RatioTooHigh,
    TiersNotExhaustive,
    UnknownDraw,
    WrongPhase,
    CommitClosed,
    AlreadyCommitted,
    BadReveal,
    RevealAfterFinalizeBlock,
    InsufficientReveals,
    EntropyExpired,
    RevenueNotSnapshotted,
    EntrySetNotSealed,
    TooEarlyToFinalize,
    NotYetExpired,
    InsufficientReserve,
    ConfigNotSet,
    LotteryIsPaused,
    TooManyEntries,
    InsufficientBalance,
}

/// The invoice registry the lottery reads: the tax module's anchors. Its
/// answers are reads of its state: the same registry answers the same way.
/// Its records are spec functions that a verified implementation defines;
/// left undefined, they are unspecified and nothing is known of them.
pub trait InvoiceRegistry {
    /// The kind the registry records for an invoice.
    closed spec fn kind_view(&self, invoice_hash: Hash32) -> Option<TaxKind> {
        arbitrary()
    }

    /// The block the registry records an invoice as anchored at.
    closed spec fn block_view(&self, invoice_hash: Hash32) -> Option<BlockNumber> {
        arbitrary()
    }

    /// Whether the registry holds an invoice as anchored.
    closed spec fn anchored_view(&self, invoice_hash: Hash32) -> bool {
        arbitrary()
    }

    fn invoice_kind(&self, invoice_hash: &Hash32) -> (r: Option<TaxKind>)
        ensures
            r == self.kind_view(*invoice_hash),
    ;

    fn anchored_block(&self, invoice_hash: &Hash32) -> (r: Option<BlockNumber>)
        ensures
            r == self.block_view(*invoice_hash),
    ;

    fn is_anchored(&self, invoice_hash: &Hash32) -> (r: bool)
        ensures
            r == self.anchored_view(*invoice_hash),
    ;
}

/// Where prizes are paid: PII-free fiat receipts on the CBDC rail. An
/// implementation records each payout it accepts, and nothing for one it
/// refuses.
/// Its records are spec functions that a verified implementation defines;
/// left undefined, they are unspecified and nothing is known of them.
pub trait TreasuryPayout {
    /// The payouts accepted so far: beneficiary, receipt key, amount.
    closed spec fn payouts(&self) -> Seq<(AccountId, Hash32, FiatAmount)> {
        arbitrary()
    }

    /// Whether the treasury accepts a payout in its current state.
    closed spec fn accepts(&self, beneficiary: AccountId, receipt_key: Hash32, amount: FiatAmount) -> bool {
        arbitrary()
    }

    /// The error the treasury answers a payout it refuses with.
    closed spec fn refusal(&self, beneficiary: AccountId, receipt_key: Hash32, amount: FiatAmount) -> Error {
        arbitrary()
    }

    fn credit_fiat(&mut self, beneficiary: &AccountId, receipt_key: Hash32, amount: FiatAmount) -> (r: Result<(), Error>)
        ensures
            r is Ok <==> old(self).accepts(*beneficiary, receipt_key, amount),
            r is Err ==> r == Err::<(), Error>(old(self).refusal(*beneficiary, receipt_key, amount)),
            r is Ok ==> final(self).payouts() == old(self).payouts().push((*beneficiary, receipt_key, amount)),
            r is Err ==> final(self).payouts() == old(self).payouts(),
    ;
}

/// The central-bank-attested eTWD reserve that backs prize pools. An
/// implementation answers the balance it attests, and records each debit it
/// accepts and each credit.
/// Its records are spec functions that a verified implementation defines;
/// left undefined, they are unspecified and nothing is known of them.
pub trait AttestedReserve {
    /// The balance the reserve attests.
    closed spec fn attested(&self) -> FiatAmount {
        arbitrary()
    }

    /// The debits accepted so far.
    closed spec fn debits(&self) -> Seq<FiatAmount> {
        arbitrary()
    }

    /// The credits made so far.
    closed spec fn credits(&self) -> Seq<FiatAmount> {
        arbitrary()
    }

    fn attested_balance(&self) -> (r: FiatAmount)
        ensures
            r == self.attested(),
    ;

    /// Whether the reserve accepts a debit in its current state.
    closed spec fn can_debit(&self, amount: FiatAmount) -> bool {
        arbitrary()
    }

    fn try_debit(&mut self, amount: FiatAmount) -> (r: Result<(), Error>)
        ensures
            r is Ok <==> old(self).can_debit(amount),
            r is Ok ==> final(self).debits() == old(self).debits().push(amount),
            r is Err ==> final(self).debits() == old(self).debits(),
            final(self).credits() == old(self).credits(),
    ;

    fn credit(&mut self, amount: FiatAmount)
        ensures
            final(self).credits() == old(self).credits().push(amount),
            final(self).debits() == old(self).debits(),
    ;
}

/// A bond operation on the currency.
#[derive(Clone, Copy, Debug, PartialEq, Eq)]
pub enum BondOp {
    Reserve(AccountId, Balance),
    Unreserve(AccountId, Balance),
    Slash(AccountId, Balance),
}

/// The currency that holds seed providers' bonds. An implementation records
/// each reservation it accepts, and each release and slash.
/// Its records are spec functions that a verified implementation defines;
/// left undefined, they are unspecified and nothing is known of them.
pub trait ReservableCurrency {
    /// The bond operations performed so far.
    closed spec fn bond_ops(&self) -> Seq<BondOp> {
        arbitrary()
    }

    /// Whether the currency can reserve `amount` of `who`'s balance now.
    closed spec fn can_reserve(&self, who: AccountId, amount: Balance) -> bool {
        arbitrary()
    }

    fn reserve(&mut self, who: &AccountId, amount: Balance) -> (r: Result<(), Error>)
        ensures
            r is Ok <==> old(self).can_reserve(*who, amount),
            r is Ok ==> final(self).bond_ops() == old(self).bond_ops().push(BondOp::Reserve(*who, amount)),
            r is Err ==> final(self).bond_ops() == old(self).bond_ops(),
    ;

    fn unreserve(&mut self, who: &AccountId, amount: Balance)
        ensures
            final(self).bond_ops() == old(self).bond_ops().push(BondOp::Unreserve(*who, amount)),
    ;

    fn slash_reserved(&mut self, who: &AccountId, amount: Balance)
        ensures
            final(self).bond_ops() == old(self).bond_ops().push(BondOp::Slash(*who, amount)),
    ;
}

/// The sum of the tier shares, each addition saturating at `u32::MAX`.
pub open spec fn share_sum(tiers: Seq<PrizeTier>) -> int
    decreases tiers.len(),
{
    if tiers.len() == 0 {
        0
    } else {
        let s = share_sum(tiers.drop_last()) + tiers.last().share_ppm;
        if s > u32::MAX {
            u32::MAX as int
        } else {
            s
        }
    }
}

/// `x + y` saturating at `u32::MAX`.
pub open spec fn sat_add_u32(x: int, y: int) -> int {
    if x + y > u32::MAX {
        u32::MAX as int
    } else {
        x + y
    }
}

/// The genesis configuration of the lottery.
pub struct GenesisConfig {
    pub period_blocks: u32,
    pub eligible_kinds: Vec<u8>,
    pub tax_ratio_ppm: u32,
    pub reserve_cap_ppm: u32,
    pub tiers: Vec<(u8, u32, u32, u128)>,
    pub allow_foreign: bool,
    pub commit_deadline: u32,
    pub reveal_deadline: u32,
    pub finalize_block: u32,
    pub claim_window: u32,
    pub merchant_set_root: Option<Hash32>,
    pub eligibility_vk: Vec<u8>,
    pub ownership_vk: Vec<u8>,
    pub open_first_draw: bool,
}

/// The lottery's state.
pub struct Pallet {
    params: LotteryParams,
    now: BlockNumber,
    active_config: Option<DrawConfig>,
    draws: Table<DrawId, DrawRecord>,
    next_draw_id: DrawId,
    current_draw: DrawId,
    paused: bool,
    merchant_set_root: Option<Hash32>,
    tickets: Table<Hash32, LotteryTicket>,
    draw_ticket_count: Table<DrawId, u32>,
    draw_entries: Table<DrawId, Vec<Hash32>>,
    entry_nullifiers: Table<Nullifier, ()>,
    claim_nullifiers: Table<Nullifier, ()>,
    entry_root: Table<DrawId, Hash32>,
    entry_count: Table<DrawId, u64>,
    commits: Table<(DrawId, AccountId), Commit>,
    revealed_xor: Table<DrawId, Hash32>,
    reveal_count: Table<DrawId, u32>,
    entropy: Table<DrawId, Hash32>,
    winners: Table<(DrawId, u8), Vec<Hash32>>,
    period_tax_revenue: Table<DrawId, FiatAmount>,
    prize_pool: Table<DrawId, FiatAmount>,
    claim_audit: Table<Hash32, Commitment>,
    eligibility_vk: Option<Vec<u8>>,
    ownership_vk: Option<Vec<u8>>,
    total_slashed: Balance,
    events: Vec<Event>,
}

/// The entries of a draw, none when absent.
pub open spec fn entries_of(m: Map<DrawId, Seq<Hash32>>, d: DrawId) -> Seq<Hash32> {
    if m.contains_key(d) {
        m[d]
    } else {
        Seq::empty()
    }
}

/// The seed accumulator of a draw, all zeros when absent.
pub open spec fn xor_view(m: Map<DrawId, Hash32>, d: DrawId) -> Seq<u8> {
    if m.contains_key(d) {
        m[d]@
    } else {
        Seq::new(32, |i: int| 0u8)
    }
}

/// A counter of a draw, zero when absent.
pub open spec fn count_of<V: Copy>(m: Map<DrawId, V>, d: DrawId, zero: V) -> V {
    if m.contains_key(d) {
        m[d]
    } else {
        zero
    }
}


/// The all-zero hash.
fn zero_hash() -> (r: Hash32)
    ensures
        r@ == Seq::new(32, |i: int| 0u8),
{
    let mut a: Hash32 = [0u8; 32];
    let mut i: usize = 0;
    while i < 32
        invariant
            i <= 32,
            forall|k: int| 0 <= k < i ==> a@[k] == 0,
        decreases 32 - i,
    {
        a[i] = 0;
        i = i + 1;
    }
    assert(a@ =~= Seq::new(32, |i: int| 0u8));
    a
}

/// Reordering distinct ticket entries keeps them distinct tickets.
proof fn lemma_sorted_keeps_tickets(before: Seq<Hash32>, after: Seq<Hash32>, tickets: Map<Hash32, LotteryTicket>)
    requires
        after.to_multiset() == before.to_multiset(),
        before.no_duplicates(),
        forall|i: int| 0 <= i < before.len() ==> #[trigger] tickets.contains_key(before[i]),
    ensures
        after.no_duplicates(),
        after.len() == before.len(),
        forall|i: int| 0 <= i < after.len() ==> #[trigger] tickets.contains_key(after[i]),
{
    broadcast use vstd::seq_lib::group_to_multiset_ensures;
    broadcast use vstd::multiset::group_multiset_properties;

    before.lemma_multiset_has_no_duplicates();
    assert(after.len() == before.len()) by {
        assert(after.to_multiset().len() == after.len());
        assert(before.to_multiset().len() == before.len());
    }
    assert forall|x: Hash32| after.to_multiset().count(x) <= 1 by {
        assert(before.to_multiset().count(x) <= 1) by {
            if before.to_multiset().count(x) > 1 {
                before.lemma_multiset_has_no_duplicates();
            }
        }
    }
    after.lemma_multiset_has_no_duplicates_conv();
    assert forall|i: int| 0 <= i < after.len() implies #[trigger] tickets.contains_key(after[i]) by {
        assert(after.to_multiset().count(after[i]) > 0);
        assert(before.contains(after[i]));
        let j = before.index_of(after[i]);
        assert(before[j] == after[i]);
    }
}

/// The entries recorded for a draw satisfy the ledger invariant.
proof fn use_wf_entries(p: Pallet, d: DrawId)
    requires
        p.wf(),
    ensures
        ({
            let e = entries_of(p.entry_map(), d);
            &&& e.no_duplicates()
            &&& e.len() <= MAX_ENTRIES
            &&& forall|i: int| 0 <= i < e.len() ==> #[trigger] p.ticket_map().contains_key(e[i])
        }),
{
    if p.draw_entries@.contains_key(d) {
        let e = p.draw_entries@[d]@;
        assert(e.no_duplicates());
    }
}



/// Whether a hash list holds `h`.
fn hashes_contain(v: &Vec<Hash32>, h: &Hash32) -> (r: bool)
    ensures
        r == v@.contains(*h),
{
    let mut i: usize = 0;
    while i < v.len()
        invariant
            i <= v@.len(),
            forall|j: int| 0 <= j < i ==> v@[j] != *h,
        decreases v@.len() - i,
    {
        if bytes_eq(&v[i], h) {
            return true;
        }
        i = i + 1;
    }
    false
}

/// The first tier numbered `id`.
fn first_tier(tiers: &Vec<PrizeTier>, id: u8) -> (r: Option<PrizeTier>)
    ensures
        r == find_tier(tiers@, id),
{
    let mut i: usize = 0;
    assert(tiers@.subrange(0, tiers@.len() as int) =~= tiers@);
    while i < tiers.len()
        invariant
            i <= tiers@.len(),
            find_tier(tiers@, id) == find_tier(tiers@.subrange(i as int, tiers@.len() as int), id),
        decreases tiers@.len() - i,
    {
        let t = tiers[i];
        if t.tier_id == id {
            return Some(t);
        }
        assert(tiers@.subrange(i as int, tiers@.len() as int).drop_first() =~= tiers@.subrange(i + 1, tiers@.len() as int));
        i = i + 1;
    }
    assert(tiers@.subrange(i as int, tiers@.len() as int) =~= Seq::<PrizeTier>::empty());
    None
}

/// What each winner of a tier is paid from a pool.
fn per_winner(pool: u128, t: &PrizeTier) -> (r: u128)
    ensures
        r == per_winner_amount(pool, *t),
{
    let tier_amount = mul_div_ppm(pool, t.share_ppm);
    let n: u128 = if t.winners == 0 { 1 } else { t.winners as u128 };
    let per = tier_amount / n;
    if per < t.unit_cap.minor_units {
        per
    } else {
        t.unit_cap.minor_units
    }
}

/// The pool a funding asks the reserve for: the smaller of the revenue's
/// share and the reserve cap, in the prize currency.
pub open spec fn funding_pool(old: Pallet, d: DrawId, rev: FiatAmount, att: FiatAmount) -> FiatAmount {
    let c = old.draw_map()[d].config;
    let raw = ppm_of(rev.minor_units, c.tax_ratio_ppm);
    let cap = ppm_of(att.minor_units, c.reserve_cap_ppm);
    FiatAmount { currency: old.parameters().prize_currency, minor_units: (if raw < cap { raw } else { cap }) as u128 }
}

/// The pool of a draw funded from revenue `rev` against an attested reserve
/// `att`: the configured share of the revenue, capped by the configured
/// share of the reserve. A reserve in another currency is refused; the
/// reserve may refuse the debit; on success the pool is recorded and
/// announced (with a cap notice when the cap bit).
pub open spec fn funding_outcome(old: Pallet, new: Pallet, d: DrawId, rev: FiatAmount, att: FiatAmount, r: Result<(), Error>) -> bool {
    let c = old.draw_map()[d].config;
    let prize = old.parameters().prize_currency;
    let raw = ppm_of(rev.minor_units, c.tax_ratio_ppm);
    let cap = ppm_of(att.minor_units, c.reserve_cap_ppm);
    let pool = funding_pool(old, d, rev, att);
    &&& att.currency != prize ==> r == Err::<(), Error>(Error::CurrencyMismatch)
    &&& att.currency == prize ==> (r is Ok || r == Err::<(), Error>(Error::InsufficientReserve))
    &&& r is Ok ==> {
        &&& new.pools() == old.pools().insert(d, pool)
        &&& new.log() == if raw > cap {
            old.log().push(Event::PrizePoolCapped { draw: d, pool }).push(Event::PrizePoolFunded { draw: d, revenue: rev, pool })
        } else {
            old.log().push(Event::PrizePoolFunded { draw: d, revenue: rev, pool })
        }
        &&& new.draw_map() == old.draw_map()
        &&& same_settings(old, new)
        &&& same_seeds(old, new)
        &&& same_sealing(old, new)
        &&& same_tickets(old, new)
    }
}


/// Whether `proof` is a valid eligibility proof for the ticket's public
/// inputs under verifying key `vk`.
pub open spec fn eligible_proof(proof: Seq<u8>, vk: Seq<u8>, invoice_hash: Hash32, root: Hash32, draw_id: DrawId, threshold: u32, nullifier: Nullifier) -> bool {
    exists|s: Seq<Fr>|
        #[trigger] eligibility_inputs_ok(invoice_hash, root, draw_id, threshold, nullifier, s)
            && groth16_bytes_verdict(proof, vk, s) == Ok::<bool, VerifyError>(true)
}

/// Whether `proof` is a valid ownership proof for the claim's public inputs
/// under verifying key `vk`.
pub open spec fn owned_proof(
    proof: Seq<u8>,
    vk: Seq<u8>,
    invoice_hash: Hash32,
    owner_commitment: Commitment,
    draw_id: DrawId,
    beneficiary: AccountId,
    nullifier: Nullifier,
    viewing_key_commitment: Commitment,
) -> bool {
    exists|s: Seq<Fr>|
        #[trigger] ownership_inputs_ok(invoice_hash, owner_commitment, draw_id, beneficiary@, nullifier, viewing_key_commitment, s)
            && groth16_bytes_verdict(proof, vk, s) == Ok::<bool, VerifyError>(true)
}

/// Whether a kind is among the eligible kinds.
pub open spec fn kind_listed(kinds: Seq<TaxKind>, k: TaxKind) -> bool {
    exists|i: int| 0 <= i < kinds.len() && kinds[i] == k
}

fn kinds_contain(kinds: &Vec<TaxKind>, k: TaxKind) -> (r: bool)
    ensures
        r == kind_listed(kinds@, k),
{
    let mut i: usize = 0;
    while i < kinds.len()
        invariant
            i <= kinds@.len(),
            forall|j: int| 0 <= j < i ==> kinds@[j] != k,
        decreases kinds@.len() - i,
    {
        if tax_kind_eq(kinds[i], k) {
            return true;
        }
        i = i + 1;
    }
    false
}

/// The answer to a ticket registration, given what the invoice registry
/// says of the invoice (anchored, its kind, its anchoring block). The checks
/// come in this order: signer, pause, anchoring, configuration, kind,
/// current draw open, ticket new, nullifier canonical and unused, merchant
/// root and verifying key present, proof valid, entry set not full.
pub open spec fn ticket_result(
    p: Pallet,
    origin: Origin,
    invoice_hash: Hash32,
    proof: Seq<u8>,
    nullifier: Nullifier,
    anchored: bool,
    kind: Option<TaxKind>,
    block: Option<BlockNumber>,
) -> Result<(), Error> {
    let d = p.current();
    if !(origin is Signed) {
        Err(Error::BadOrigin)
    } else if p.is_paused() {
        Err(Error::LotteryIsPaused)
    } else if !anchored || kind is None {
        Err(Error::InvoiceNotAnchored)
    } else if p.config() is None {
        Err(Error::ConfigNotSet)
    } else if !kind_listed(p.config()->0.eligible_kinds, kind->0) {
        Err(Error::IneligibleInvoiceKind)
    } else if block is None {
        Err(Error::InvoiceNotAnchored)
    } else if !p.draw_map().contains_key(d) {
        Err(Error::UnknownDraw)
    } else if phase_of(p.draw_map()[d].state) != Phase::Open {
        Err(Error::DrawClosed)
    } else if p.ticket_map().contains_key(invoice_hash) {
        Err(Error::TicketAlreadyRegistered)
    } else if le_value(nullifier@) >= scalar_modulus() {
        Err(Error::NonCanonicalNullifier)
    } else if p.entry_nulls().contains(nullifier) {
        Err(Error::NullifierUsed)
    } else if p.root() is None {
        Err(Error::MerchantRootUnset)
    } else if p.elig_vk() is None {
        Err(Error::InvalidVk)
    } else if !eligible_proof(proof, p.elig_vk()->0, invoice_hash, p.root()->0, d, p.parameters().age_threshold, nullifier) {
        Err(Error::InvalidProof)
    } else if entries_of(p.entry_map(), d).len() >= MAX_ENTRIES {
        Err(Error::TooManyEntries)
    } else {
        Ok(())
    }
}

/// Two states hold the same settings: parameters, configuration, clock,
/// pause flag, merchant root and period revenues.
pub open spec fn same_settings(p: Pallet, q: Pallet) -> bool {
    &&& q.parameters() == p.parameters()
    &&& q.config() == p.config()
    &&& q.clock() == p.clock()
    &&& q.is_paused() == p.is_paused()
    &&& q.root() == p.root()
    &&& q.revenue() == p.revenue()
    &&& q.next_draw() == p.next_draw()
    &&& q.current() == p.current()
}

/// Two states hold the same seed commitments, accumulators, entropy and
/// slashing total.
pub open spec fn same_seeds(p: Pallet, q: Pallet) -> bool {
    &&& q.commit_map() == p.commit_map()
    &&& q.commit_keys() == p.commit_keys()
    &&& q.xors() == p.xors()
    &&& q.reveals() == p.reveals()
    &&& q.entropies() == p.entropies()
    &&& q.slashed() == p.slashed()
}

/// Two states hold the same sealed entry sets, winners and verifying keys.
pub open spec fn same_sealing(p: Pallet, q: Pallet) -> bool {
    &&& q.roots() == p.roots()
    &&& q.counts() == p.counts()
    &&& q.winner_map() == p.winner_map()
    &&& q.elig_vk() == p.elig_vk()
    &&& q.own_vk() == p.own_vk()
}

/// Two states hold the same tickets and claims.
pub open spec fn same_tickets(p: Pallet, q: Pallet) -> bool {
    &&& q.ticket_map() == p.ticket_map()
    &&& q.ticket_counts() == p.ticket_counts()
    &&& q.entry_map() == p.entry_map()
    &&& q.entry_nulls() == p.entry_nulls()
    &&& q.claim_nulls() == p.claim_nulls()
    &&& q.audit() == p.audit()
}

/// What a successful registration records: the ticket for the current
/// draw, the spent entry nullifier, the entry, the ticket count, the event.
pub open spec fn ticket_effect(old: Pallet, new: Pallet, invoice_hash: Hash32, owner_commitment: Commitment, nullifier: Nullifier) -> bool {
    let d = old.current();
    &&& new.ticket_map() == old.ticket_map().insert(
        invoice_hash,
        LotteryTicket { draw: d, owner_commitment, registered_at: old.clock() },
    )
    &&& new.entry_nulls() == old.entry_nulls().insert(nullifier)
    &&& new.entry_map() == old.entry_map().insert(d, entries_of(old.entry_map(), d).push(invoice_hash))
    &&& new.ticket_counts() == old.ticket_counts().insert(
        d,
        sat_add_u32(count_of(old.ticket_counts(), d, 0u32) as int, 1) as u32,
    )
    &&& new.log() == old.log().push(Event::TicketRegistered { invoice_hash, draw: d })
    &&& new.draw_map() == old.draw_map()
    &&& new.claim_nulls() == old.claim_nulls()
    &&& new.audit() == old.audit()
    &&& new.pools() == old.pools()
    &&& same_settings(old, new)
    &&& same_seeds(old, new)
    &&& same_sealing(old, new)
}

/// What opening a draw does: a new draw under the configuration in force,
/// numbered by the draw counter (which saturates), its period starting now,
/// becomes the current draw.
pub open spec fn open_effect(old: Pallet, new: Pallet) -> bool {
    let id = old.next_draw();
    let c = old.config()->0;
    &&& new.draw_map() == old.draw_map().insert(id, DrawRecordView {
        config: c,
        period_start_block: old.clock(),
        period_end_block: (if old.clock() + c.period_blocks > u32::MAX { u32::MAX as int } else { old.clock() + c.period_blocks }) as BlockNumber,
        revenue_snapshot: None,
        state: DrawState::Open,
    })
    &&& new.current() == id
    &&& new.next_draw() == (if id == u64::MAX { id } else { (id + 1) as u64 })
    &&& new.log() == old.log().push(Event::DrawOpened { draw: id })
    &&& new.config() == old.config()
    &&& new.clock() == old.clock()
    &&& new.is_paused() == old.is_paused()
    &&& new.entry_map() == old.entry_map()
    &&& new.ticket_map() == old.ticket_map()
    &&& new.revenue() == old.revenue()
    &&& new.parameters() == old.parameters()
    &&& new.root() == old.root()
    &&& new.elig_vk() == old.elig_vk()
    &&& new.own_vk() == old.own_vk()
    &&& new.entry_nulls() == old.entry_nulls()
    &&& new.claim_nulls() == old.claim_nulls()
    &&& new.pools() == old.pools()
    &&& new.commit_map() == old.commit_map()
    &&& new.slashed() == old.slashed()
}


/// The first tier numbered `id`, if any.
pub open spec fn find_tier(tiers: Seq<PrizeTier>, id: u8) -> Option<PrizeTier>
    decreases tiers.len(),
{
    if tiers.len() == 0 {
        None
    } else if tiers[0].tier_id == id {
        Some(tiers[0])
    } else {
        find_tier(tiers.drop_first(), id)
    }
}

/// What each winner of tier `t` is paid from a pool of `pool` minor units:
/// the tier's share of the pool split among its winners (counted as at
/// least one), at most the tier's cap per winner.
pub open spec fn per_winner_amount(pool: u128, t: PrizeTier) -> u128 {
    let share = ppm_of(pool, t.share_ppm);
    let n: int = if t.winners == 0 { 1 } else { t.winners as int };
    let per = share / n;
    (if per < t.unit_cap.minor_units { per } else { t.unit_cap.minor_units as int }) as u128
}

/// A winner of a tier is paid the tier's share of the pool (the pool times
/// the share in ppm, the product saturating at `u128::MAX`, divided by a
/// million) split evenly among the tier's winners (at least one), rounded
/// down and capped at the tier's unit cap; so all the winners of a tier
/// together are never paid more than the tier's share.
pub proof fn lemma_per_winner_split(pool: u128, t: PrizeTier)
    ensures
        ({
            let product = pool as int * t.share_ppm as int;
            let share = (if product > u128::MAX { u128::MAX as int } else { product }) / 1_000_000;
            let n = if t.winners == 0 { 1int } else { t.winners as int };
            &&& per_winner_amount(pool, t) as int == if share / n < t.unit_cap.minor_units { share / n } else {
                t.unit_cap.minor_units as int
            }
            &&& per_winner_amount(pool, t) <= t.unit_cap.minor_units
            &&& per_winner_amount(pool, t) as int * n <= share
            &&& per_winner_amount(pool, t) as int * n > share - n || per_winner_amount(pool, t) == t.unit_cap.minor_units
        }),
{
    let product = pool as int * t.share_ppm as int;
    let share = (if product > u128::MAX { u128::MAX as int } else { product }) / 1_000_000;
    let n = if t.winners == 0 { 1int } else { t.winners as int };
    let per = per_winner_amount(pool, t) as int;
    assert(share >= 0);
    assert(share / n * n <= share && share / n * n > share - n) by (nonlinear_arith)
        requires
            share >= 0,
            n >= 1,
    {
        vstd::arithmetic::div_mod::lemma_fundamental_div_mod(share, n);
    }
    assert(per <= share / n);
    assert(per * n <= share / n * n) by (nonlinear_arith)
        requires
            0 <= per <= share / n,
            n >= 1,
    {
    }
}

/// The pool a funding asks the reserve for is the revenue's configured share
/// (revenue times the tax ratio in ppm, the product saturating at
/// `u128::MAX`, over a million) capped by the configured share of the
/// attested reserve: never more than either, and equal to the smaller.
pub proof fn lemma_funding_pool_capped(old: Pallet, d: DrawId, rev: FiatAmount, att: FiatAmount)
    ensures
        ({
            let c = old.draw_map()[d].config;
            let rp = rev.minor_units as int * c.tax_ratio_ppm as int;
            let ap = att.minor_units as int * c.reserve_cap_ppm as int;
            let raw = (if rp > u128::MAX { u128::MAX as int } else { rp }) / 1_000_000;
            let cap = (if ap > u128::MAX { u128::MAX as int } else { ap }) / 1_000_000;
            let pool = funding_pool(old, d, rev, att);
            &&& pool.minor_units <= raw
            &&& pool.minor_units <= cap
            &&& (pool.minor_units == raw || pool.minor_units == cap)
            &&& pool.currency == old.parameters().prize_currency
        }),
{
}

/// The pool of a draw in minor units, zero when none was funded.
pub open spec fn pool_units(p: Pallet, d: DrawId) -> u128 {
    if p.pools().contains_key(d) {
        p.pools()[d].minor_units
    } else {
        0
    }
}

/// The answer to a prize claim before the payout is made: the amount owed,
/// or the first check that fails, in this order: signer, pause, draw known,
/// draw drawn or settled, claim window open, invoice among the tier's
/// winners, nullifier canonical and unused, ticket known, ownership key
/// present, proof valid, tier configured, pool funded in the prize currency
/// and large enough.
pub open spec fn claim_result(
    p: Pallet,
    origin: Origin,
    draw_id: DrawId,
    tier: u8,
    invoice_hash: Hash32,
    beneficiary: AccountId,
    proof: Seq<u8>,
    nullifier: Nullifier,
    viewing_key_commitment: Commitment,
) -> Result<FiatAmount, Error> {
    let m = p.draw_map();
    let rec = m[draw_id];
    let w = p.winner_map();
    let prize = p.parameters().prize_currency;
    if !(origin is Signed) {
        Err(Error::BadOrigin)
    } else if p.is_paused() {
        Err(Error::LotteryIsPaused)
    } else if !m.contains_key(draw_id) {
        Err(Error::UnknownDraw)
    } else if !(rec.state == DrawState::Drawn || rec.state == DrawState::Settled) {
        Err(Error::WrongPhase)
    } else if p.clock() > sat_add_u32(rec.config.finalize_block as int, rec.config.claim_window as int) {
        Err(Error::ClaimWindowClosed)
    } else if !(w.contains_key((draw_id, tier)) && w[(draw_id, tier)].contains(invoice_hash)) {
        Err(Error::NotAWinner)
    } else if le_value(nullifier@) >= scalar_modulus() {
        Err(Error::NonCanonicalNullifier)
    } else if p.claim_nulls().contains(nullifier) {
        Err(Error::AlreadyClaimed)
    } else if !p.ticket_map().contains_key(invoice_hash) {
        Err(Error::NotAWinner)
    } else if p.own_vk() is None {
        Err(Error::InvalidVk)
    } else if !owned_proof(
        proof,
        p.own_vk()->0,
        invoice_hash,
        p.ticket_map()[invoice_hash].owner_commitment,
        draw_id,
        beneficiary,
        nullifier,
        viewing_key_commitment,
    ) {
        Err(Error::InvalidProof)
    } else if find_tier(rec.config.tiers, tier) is None {
        Err(Error::WrongPhase)
    } else {
        let amount = per_winner_amount(pool_units(p, draw_id), find_tier(rec.config.tiers, tier)->0);
        if !p.pools().contains_key(draw_id) {
            Err(Error::InsufficientPool)
        } else if p.pools()[draw_id].currency != prize {
            Err(Error::CurrencyMismatch)
        } else if p.pools()[draw_id].minor_units < amount {
            Err(Error::InsufficientPool)
        } else {
            Ok(FiatAmount { currency: prize, minor_units: amount })
        }
    }
}

/// What a paid claim records: the pool less the payout, the spent claim
/// nullifier, the viewing-key commitment under the receipt key, the event.
pub open spec fn claim_effect(
    old: Pallet,
    new: Pallet,
    draw_id: DrawId,
    tier: u8,
    invoice_hash: Hash32,
    nullifier: Nullifier,
    viewing_key_commitment: Commitment,
    amount: FiatAmount,
) -> bool {
    let pool = old.pools()[draw_id];
    exists|key: Hash32| {
        &&& #[trigger] key@ == receipt_key_of(invoice_hash, nullifier)
        &&& new.audit() == old.audit().insert(key, viewing_key_commitment)
        &&& new.log() == old.log().push(Event::PrizeClaimed { receipt_key: key, draw: draw_id, tier, amount })
        &&& new.pools() == old.pools().insert(
            draw_id,
            FiatAmount { currency: pool.currency, minor_units: (pool.minor_units - amount.minor_units) as u128 },
        )
        &&& new.claim_nulls() == old.claim_nulls().insert(nullifier)
        &&& new.draw_map() == old.draw_map()
        &&& new.ticket_map() == old.ticket_map()
        &&& new.winner_map() == old.winner_map()
        &&& new.entry_map() == old.entry_map()
        &&& new.entry_nulls() == old.entry_nulls()
        &&& new.ticket_counts() == old.ticket_counts()
        &&& same_settings(old, new)
        &&& same_seeds(old, new)
        &&& same_sealing(old, new)
    }
}


/// The accounts that committed to draw `d` and never revealed, in the order
/// the commitments are stored.
pub open spec fn pending_of(keys: Seq<(DrawId, AccountId)>, cm: Map<(DrawId, AccountId), Commit>, d: DrawId) -> Seq<AccountId>
    decreases keys.len(),
{
    if keys.len() == 0 {
        Seq::empty()
    } else {
        let rest = pending_of(keys.drop_last(), cm, d);
        let k = keys.last();
        if k.0 == d && !cm[k].revealed {
            rest.push(k.1)
        } else {
            rest
        }
    }
}

/// The seed accumulator after the fallback seeds of `whos` are folded in.
pub open spec fn fold_fallbacks(acc: Seq<u8>, whos: Seq<AccountId>, d: DrawId) -> Seq<u8>
    decreases whos.len(),
{
    if whos.len() == 0 {
        acc
    } else {
        xor32(fold_fallbacks(acc, whos.drop_last(), d), fallback_seed_of(d, whos.last()))
    }
}

/// `n` times `x`, each addition saturating at `u128::MAX`.
pub open spec fn sat_times(x: u128, n: nat) -> u128
    decreases n,
{
    if n == 0 {
        0
    } else {
        let s = sat_times(x, (n - 1) as nat) + x;
        (if s > u128::MAX { u128::MAX as int } else { s }) as u128
    }
}

/// One slashing event per account, in order.
pub open spec fn slash_events(d: DrawId, whos: Seq<AccountId>, amount: Balance) -> Seq<Event> {
    whos.map_values(|w: AccountId| Event::SeedSlashed { draw: d, who: w, amount })
}

/// One slash of `amount` per account, in order.
pub open spec fn slash_ops(whos: Seq<AccountId>, amount: Balance) -> Seq<BondOp> {
    whos.map_values(|w: AccountId| BondOp::Slash(w, amount))
}

/// The commitments with every commitment to draw `d` marked revealed.
pub open spec fn marked_revealed(cm: Map<(DrawId, AccountId), Commit>, d: DrawId) -> Map<(DrawId, AccountId), Commit> {
    Map::new(
        |k: (DrawId, AccountId)| cm.contains_key(k),
        |k: (DrawId, AccountId)| if k.0 == d { Commit { commitment: cm[k].commitment, revealed: true } } else { cm[k] },
    )
}

/// The winners recorded after selecting the tiers `tiers` in order (a tier
/// with no winner records nothing; a later tier with the same number
/// replaces an earlier one).
pub open spec fn winners_after(
    wm: Map<(DrawId, u8), Seq<Hash32>>,
    e: Hash32,
    d: DrawId,
    tiers: Seq<PrizeTier>,
    entries: Seq<Hash32>,
) -> Map<(DrawId, u8), Seq<Hash32>>
    decreases tiers.len(),
{
    if tiers.len() == 0 {
        wm
    } else {
        let prev = winners_after(wm, e, d, tiers.drop_last(), entries);
        let w = tier_winners(e, d, tiers.last(), entries);
        if w.len() > 0 {
            prev.insert((d, tiers.last().tier_id), w)
        } else {
            prev
        }
    }
}

/// Winner selection samples without replacement: after a draw is finalized,
/// every winner list that differs from before belongs to one of the draw's
/// tiers, and is that tier's winners for the draw's entries and entropy
/// (a spec function of those alone), no entry twice, at most the tier's
/// target, each an entry of the draw.
pub proof fn lemma_winners_sampled(
    wm: Map<(DrawId, u8), Seq<Hash32>>,
    e: Hash32,
    d: DrawId,
    tiers: Seq<PrizeTier>,
    entries: Seq<Hash32>,
)
    requires
        entries.len() > 0,
        entries.len() <= u64::MAX,
        entries.no_duplicates(),
    ensures
        forall|k: (DrawId, u8)| #[trigger] winners_after(wm, e, d, tiers, entries).contains_key(k) ==> {
            let w = winners_after(wm, e, d, tiers, entries)[k];
            ||| wm.contains_key(k) && w == wm[k]
            ||| exists|j: int| {
                &&& 0 <= j < tiers.len()
                &&& k == (d, #[trigger] tiers[j].tier_id)
                &&& w == tier_winners(e, d, tiers[j], entries)
                &&& w.no_duplicates()
                &&& w.len() <= self::entries::tier_target(tiers[j], entries.len() as int)
                &&& forall|i: int| 0 <= i < w.len() ==> entries.contains(#[trigger] w[i])
            }
        },
    decreases tiers.len(),
{
    if tiers.len() > 0 {
        let t = tiers.drop_last();
        lemma_winners_sampled(wm, e, d, t, entries);
        self::entries::lemma_tier_winners_distinct(e, d, tiers.last(), entries);
        let prev = winners_after(wm, e, d, t, entries);
        let j0 = tiers.len() - 1;
        assert forall|k: (DrawId, u8)| #[trigger] winners_after(wm, e, d, tiers, entries).contains_key(k) implies {
            let w = winners_after(wm, e, d, tiers, entries)[k];
            ||| wm.contains_key(k) && w == wm[k]
            ||| exists|j: int| {
                &&& 0 <= j < tiers.len()
                &&& k == (d, #[trigger] tiers[j].tier_id)
                &&& w == tier_winners(e, d, tiers[j], entries)
                &&& w.no_duplicates()
                &&& w.len() <= self::entries::tier_target(tiers[j], entries.len() as int)
                &&& forall|i: int| 0 <= i < w.len() ==> entries.contains(#[trigger] w[i])
            }
        } by {
            let w = tier_winners(e, d, tiers.last(), entries);
            if w.len() > 0 && k == (d, tiers.last().tier_id) {
                assert(tiers[j0] == tiers.last());
            } else {
                assert(prev.contains_key(k));
                if !(wm.contains_key(k) && prev[k] == wm[k]) {
                    let j = choose|j: int| {
                        &&& 0 <= j < t.len()
                        &&& k == (d, #[trigger] t[j].tier_id)
                        &&& prev[k] == tier_winners(e, d, t[j], entries)
                        &&& prev[k].no_duplicates()
                        &&& prev[k].len() <= self::entries::tier_target(t[j], entries.len() as int)
                        &&& forall|i: int| 0 <= i < prev[k].len() ==> entries.contains(#[trigger] prev[k][i])
                    };
                    assert(tiers[j] == t[j]);
                }
            }
        }
    }
}

/// The answer to finalizing a draw, the first failing check in this order:
/// signer, draw known, draw drawing, past the finalize block, entry set
/// sealed, enough reveals, finalize block still within the block-hash
/// window.
pub open spec fn finalize_result(p: Pallet, origin: Origin, d: DrawId) -> Result<(), Error> {
    let m = p.draw_map();
    let c = m[d].config;
    if !(origin is Signed) {
        Err(Error::BadOrigin)
    } else if !m.contains_key(d) {
        Err(Error::UnknownDraw)
    } else if m[d].state != DrawState::Drawing {
        Err(Error::WrongPhase)
    } else if p.clock() <= c.finalize_block {
        Err(Error::TooEarlyToFinalize)
    } else if !p.roots().contains_key(d) {
        Err(Error::EntrySetNotSealed)
    } else if count_of(p.reveals(), d, 0u32) < p.parameters().min_reveals {
        Err(Error::InsufficientReveals)
    } else if p.clock() > sat_add_u32(c.finalize_block as int, p.parameters().block_hash_count as int) {
        Err(Error::EntropyExpired)
    } else {
        Ok(())
    }
}

/// What finalizing draw `d` does, with `block_hash` the hash of its
/// finalize block: the draw is drawn; every committer who never revealed
/// has a fallback seed folded into the accumulator, is marked revealed and
/// is slashed the commit bond; the entropy is derived from the accumulator,
/// the block hash and the draw; each tier's winners are selected from the
/// entries (when there are any); the events follow in that order.
pub open spec fn finalize_effect(old: Pallet, new: Pallet, d: DrawId, block_hash: Hash32) -> bool {
    let rec = old.draw_map()[d];
    let pending = pending_of(old.commit_keys(), old.commit_map(), d);
    let deposit = old.parameters().commit_deposit;
    let x = fold_fallbacks(xor_view(old.xors(), d), pending, d);
    let total = sat_times(deposit, pending.len());
    let entries = entries_of(old.entry_map(), d);
    exists|xh: Hash32, e: Hash32| {
        &&& #[trigger] xh@ == x
        &&& #[trigger] e@ == entropy_of(xh, block_hash, d)
        &&& new.draw_map() == old.draw_map().insert(d, DrawRecordView { state: DrawState::Drawn, ..rec })
        &&& new.xors() == if pending.len() == 0 { old.xors() } else { old.xors().insert(d, xh) }
        &&& new.commit_map() == marked_revealed(old.commit_map(), d)
        &&& new.slashed() == (if old.slashed() + total > u128::MAX { u128::MAX as int } else { old.slashed() + total }) as u128
        &&& new.entropies() == old.entropies().insert(d, e)
        &&& new.winner_map() == if entries.len() == 0 {
            old.winner_map()
        } else {
            winners_after(old.winner_map(), e, d, rec.config.tiers, entries)
        }
        &&& new.log() == (old.log() + slash_events(d, pending, deposit)).push(Event::DrawCompleted { draw: d, entropy: e })
        &&& new.ticket_map() == old.ticket_map()
        &&& new.entry_map() == old.entry_map()
        &&& new.pools() == old.pools()
        &&& new.claim_nulls() == old.claim_nulls()
        &&& new.entry_nulls() == old.entry_nulls()
    }
}


/// The tax kinds named by the numbers `ks`, unknown numbers skipped.
pub open spec fn genesis_kinds(ks: Seq<u8>) -> Seq<TaxKind>
    decreases ks.len(),
{
    if ks.len() == 0 {
        Seq::empty()
    } else {
        let rest = genesis_kinds(ks.drop_last());
        match kind_of(ks.last()) {
            Some(k) => rest.push(k),
            None => rest,
        }
    }
}

/// A prize tier given as `(id, share in ppm, winners, cap in minor units)`.
pub open spec fn genesis_tier(t: (u8, u32, u32, u128), currency: FiatCurrency) -> PrizeTier {
    PrizeTier { tier_id: t.0, share_ppm: t.1, winners: t.2, unit_cap: FiatAmount { currency, minor_units: t.3 } }
}

/// The configuration a genesis sets: kinds beyond eight, or tiers beyond
/// sixteen, leave that list empty.
pub open spec fn genesis_config_view(g: GenesisConfig, currency: FiatCurrency) -> DrawConfigView {
    let kinds = genesis_kinds(g.eligible_kinds@);
    let tiers = g.tiers@.map_values(|t: (u8, u32, u32, u128)| genesis_tier(t, currency));
    DrawConfigView {
        period_blocks: g.period_blocks,
        eligible_kinds: if kinds.len() <= 8 { kinds } else { Seq::empty() },
        tax_ratio_ppm: g.tax_ratio_ppm,
        reserve_cap_ppm: g.reserve_cap_ppm,
        tiers: if tiers.len() <= 16 { tiers } else { Seq::empty() },
        allow_foreign: g.allow_foreign,
        commit_deadline: g.commit_deadline,
        reveal_deadline: g.reveal_deadline,
        finalize_block: g.finalize_block,
        claim_window: g.claim_window,
    }
}

/// A verifying key a genesis installs: a non-empty one of at most 8192
/// bytes.
pub open spec fn genesis_vk(v: Seq<u8>) -> Option<Seq<u8>> {
    if 0 < v.len() <= 8192 {
        Some(v)
    } else {
        None
    }
}

impl GenesisConfig {
    /// The lottery at genesis: the configuration in force, the merchant set
    /// root and verifying keys given, and the first draw opened if asked.
    pub fn build(&self, params: LotteryParams) -> (r: Pallet)
        ensures
            r.wf(),
            r.parameters() == params,
            r.clock() == 0,
            !r.is_paused(),
            r.config() == Some(genesis_config_view(*self, params.prize_currency)),
            r.root() == self.merchant_set_root,
            r.elig_vk() == genesis_vk(self.eligibility_vk@),
            r.own_vk() == genesis_vk(self.ownership_vk@),
            r.ticket_map() == Map::<Hash32, LotteryTicket>::empty(),
            r.entry_map() == Map::<DrawId, Seq<Hash32>>::empty(),
            r.entry_nulls() == Set::<Nullifier>::empty(),
            r.claim_nulls() == Set::<Nullifier>::empty(),
            r.pools() == Map::<DrawId, FiatAmount>::empty(),
            r.commit_map() == Map::<(DrawId, AccountId), Commit>::empty(),
            r.slashed() == 0,
            r.current() == 0,
            self.open_first_draw ==> {
                &&& r.draw_map() == Map::<DrawId, DrawRecordView>::empty().insert(0, DrawRecordView {
                    config: genesis_config_view(*self, params.prize_currency),
                    period_start_block: 0,
                    period_end_block: self.period_blocks,
                    revenue_snapshot: None,
                    state: DrawState::Open,
                })
                &&& r.next_draw() == 1
                &&& r.log() == seq![Event::DrawOpened { draw: 0 }]
            },
            !self.open_first_draw ==> {
                &&& r.draw_map() == Map::<DrawId, DrawRecordView>::empty()
                &&& r.next_draw() == 0
                &&& r.log() == Seq::<Event>::empty()
            },
    {
        let mut kinds: Vec<TaxKind> = Vec::new();
        let mut i: usize = 0;
        assert(self.eligible_kinds@.take(0) =~= Seq::<u8>::empty());
        while i < self.eligible_kinds.len()
            invariant
                i <= self.eligible_kinds@.len(),
                kinds@ == genesis_kinds(self.eligible_kinds@.take(i as int)),
            decreases self.eligible_kinds@.len() - i,
        {
            assert(self.eligible_kinds@.take(i as int + 1).drop_last() =~= self.eligible_kinds@.take(i as int));
            match tax_kind_from_u8(self.eligible_kinds[i]) {
                Some(k) => kinds.push(k),
                None => {},
            }
            i = i + 1;
        }
        assert(self.eligible_kinds@.take(i as int) =~= self.eligible_kinds@);
        if kinds.len() > 8 {
            kinds = Vec::new();
        }
        let currency = params.prize_currency;
        let mut tiers: Vec<PrizeTier> = Vec::new();
        let mut j: usize = 0;
        while j < self.tiers.len()
            invariant
                j <= self.tiers@.len(),
                tiers@ == self.tiers@.take(j as int).map_values(|t: (u8, u32, u32, u128)| genesis_tier(t, currency)),
            decreases self.tiers@.len() - j,
        {
            let (id, share, winners, cap) = self.tiers[j];
            tiers.push(PrizeTier { tier_id: id, share_ppm: share, winners, unit_cap: FiatAmount { currency, minor_units: cap } });
            j = j + 1;
            assert(tiers@ =~= self.tiers@.take(j as int).map_values(|t: (u8, u32, u32, u128)| genesis_tier(t, currency)));
        }
        assert(self.tiers@.take(j as int) =~= self.tiers@);
        if tiers.len() > 16 {
            tiers = Vec::new();
        }
        let cfg = DrawConfig {
            period_blocks: self.period_blocks,
            eligible_kinds: kinds,
            tax_ratio_ppm: self.tax_ratio_ppm,
            reserve_cap_ppm: self.reserve_cap_ppm,
            tiers,
            allow_foreign: self.allow_foreign,
            commit_deadline: self.commit_deadline,
            reveal_deadline: self.reveal_deadline,
            finalize_block: self.finalize_block,
            claim_window: self.claim_window,
        };
        assert(cfg@ == genesis_config_view(*self, currency));
        let mut p = Pallet::new(params);
        p.active_config = Some(cfg);
        p.merchant_set_root = self.merchant_set_root;
        let n = self.eligibility_vk.len();
        if 0 < n && n <= 8192 {
            p.eligibility_vk = Some(copy_vec(self.eligibility_vk.as_slice()));
        }
        let n = self.ownership_vk.len();
        if 0 < n && n <= 8192 {
            p.ownership_vk = Some(copy_vec(self.ownership_vk.as_slice()));
        }
        if self.open_first_draw {
            let _ = p.do_open_draw();
            proof {
                assert(p.draw_map() =~= Map::<DrawId, DrawRecordView>::empty().insert(0, DrawRecordView {
                    config: genesis_config_view(*self, params.prize_currency),
                    period_start_block: 0,
                    period_end_block: self.period_blocks,
                    revenue_snapshot: None,
                    state: DrawState::Open,
                }));
                assert(p.log() =~= seq![Event::DrawOpened { draw: 0 }]);
            }
        }
        p
    }
}


/// A ticket registers once, and an entry nullifier is spent once: after a
/// registration, registering the same invoice, or any invoice with the same
/// nullifier, is refused whatever the registry answers.
pub proof fn lemma_ticket_registers_once(
    p: Pallet,
    q: Pallet,
    invoice_hash: Hash32,
    owner_commitment: Commitment,
    nullifier: Nullifier,
    origin: Origin,
    other_hash: Hash32,
    proof: Seq<u8>,
    other_nullifier: Nullifier,
    anchored: bool,
    kind: Option<TaxKind>,
    block: Option<BlockNumber>,
)
    requires
        ticket_effect(p, q, invoice_hash, owner_commitment, nullifier),
        other_hash == invoice_hash || other_nullifier == nullifier,
    ensures
        ticket_result(q, origin, other_hash, proof, other_nullifier, anchored, kind, block) is Err,
{
    assert(q.ticket_map().contains_key(invoice_hash));
    assert(q.entry_nulls().contains(nullifier));
}

/// A prize is paid once per claim nullifier: after a paid claim, any claim
/// with the same nullifier is refused.
pub proof fn lemma_claim_pays_once(
    p: Pallet,
    q: Pallet,
    draw_id: DrawId,
    tier: u8,
    invoice_hash: Hash32,
    nullifier: Nullifier,
    viewing_key_commitment: Commitment,
    amount: FiatAmount,
    origin: Origin,
    draw2: DrawId,
    tier2: u8,
    hash2: Hash32,
    beneficiary: AccountId,
    proof: Seq<u8>,
    vkc2: Commitment,
)
    requires
        claim_effect(p, q, draw_id, tier, invoice_hash, nullifier, viewing_key_commitment, amount),
    ensures
        claim_result(q, origin, draw2, tier2, hash2, beneficiary, proof, nullifier, vkc2) is Err,
{
    assert(q.claim_nulls().contains(nullifier));
}

/// Two states hold the same draws, tickets, entries, commitments,
/// accumulators, winners, pools, claims, keys and slashing total.
pub open spec fn same_records(p: Pallet, q: Pallet) -> bool {
    &&& q.parameters() == p.parameters()
    &&& q.draw_map() == p.draw_map()
    &&& q.next_draw() == p.next_draw()
    &&& q.current() == p.current()
    &&& q.ticket_map() == p.ticket_map()
    &&& q.ticket_counts() == p.ticket_counts()
    &&& q.entry_map() == p.entry_map()
    &&& q.entry_nulls() == p.entry_nulls()
    &&& q.claim_nulls() == p.claim_nulls()
    &&& q.roots() == p.roots()
    &&& q.counts() == p.counts()
    &&& q.commit_map() == p.commit_map()
    &&& q.commit_keys() == p.commit_keys()
    &&& q.xors() == p.xors()
    &&& q.reveals() == p.reveals()
    &&& q.entropies() == p.entropies()
    &&& q.winner_map() == p.winner_map()
    &&& q.pools() == p.pools()
    &&& q.audit() == p.audit()
    &&& q.elig_vk() == p.elig_vk()
    &&& q.own_vk() == p.own_vk()
    &&& q.slashed() == p.slashed()
}

/// What the state updates of the configuration calls change: `with_clock`
/// only the clock, `with_config` only the configuration, `with_root` only the
/// merchant root, `with_paused` only the pause flag; a state `logged_after`
/// a base is the base with one more event; `same_but_revenue` differs at
/// most in the period revenues.
pub proof fn lemma_state_updates(p: Pallet, q: Pallet, n: BlockNumber, c: DrawConfig, root: Hash32, b: bool, e: Event)
    ensures
        same_records(p, p.with_clock(n)) && p.with_clock(n).clock() == n && p.with_clock(n).config() == p.config()
            && p.with_clock(n).root() == p.root() && p.with_clock(n).is_paused() == p.is_paused()
            && p.with_clock(n).revenue() == p.revenue() && p.with_clock(n).log() == p.log(),
        same_records(p, p.with_config(c)) && p.with_config(c).config() == Some(c@) && p.with_config(c).clock()
            == p.clock() && p.with_config(c).root() == p.root() && p.with_config(c).is_paused() == p.is_paused()
            && p.with_config(c).revenue() == p.revenue() && p.with_config(c).log() == p.log(),
        same_records(p, p.with_root(root)) && p.with_root(root).root() == Some(root) && p.with_root(root).clock()
            == p.clock() && p.with_root(root).config() == p.config() && p.with_root(root).is_paused() == p.is_paused()
            && p.with_root(root).revenue() == p.revenue() && p.with_root(root).log() == p.log(),
        same_records(p, p.with_paused(b)) && p.with_paused(b).is_paused() == b && p.with_paused(b).clock() == p.clock()
            && p.with_paused(b).config() == p.config() && p.with_paused(b).root() == p.root()
            && p.with_paused(b).revenue() == p.revenue() && p.with_paused(b).log() == p.log(),
        q.logged_after(p, e) ==> same_records(p, q) && q.log() == p.log().push(e) && q.clock() == p.clock()
            && q.config() == p.config() && q.root() == p.root() && q.is_paused() == p.is_paused() && q.revenue()
            == p.revenue(),
        q.same_but_revenue(p) ==> same_records(p, q) && q.log() == p.log() && q.clock() == p.clock() && q.config()
            == p.config() && q.root() == p.root() && q.is_paused() == p.is_paused(),
{
    if q.logged_after(p, e) {
        assert(Pallet { events: p.events, ..q } == p);
    }
    if q.same_but_revenue(p) {
        assert(Pallet { period_tax_revenue: p.period_tax_revenue, ..q } == p);
    }
}

impl Pallet {
    /// The ledger invariant: every draw's entries are distinct tickets, at
    /// most the entry cap.
    pub closed spec fn wf(self) -> bool {
        forall|d: DrawId| #[trigger] self.draw_entries@.contains_key(d) ==> {
            let e = self.draw_entries@[d]@;
            &&& e.no_duplicates()
            &&& e.len() <= MAX_ENTRIES
            &&& forall|i: int| 0 <= i < e.len() ==> #[trigger] self.tickets@.contains_key(e[i])
        }
    }

    /// Every draw's entry set holds no invoice twice, fits the entry cap, and
    /// lists only registered tickets.
    pub proof fn lemma_entries_distinct(self, d: DrawId)
        requires
            self.wf(),
        ensures
            self.entry_map().contains_key(d) ==> {
                let e = self.entry_map()[d];
                &&& e.no_duplicates()
                &&& e.len() <= MAX_ENTRIES
                &&& forall|i: int| 0 <= i < e.len() ==> #[trigger] self.ticket_map().contains_key(e[i])
            },
    {
        if self.entry_map().contains_key(d) {
            assert(self.draw_entries@.contains_key(d));
        }
    }

    /// This state with the clock at `n`.
    pub closed spec fn with_clock(self, n: BlockNumber) -> Pallet {
        Pallet { now: n, ..self }
    }

    /// This state with configuration `c` in force.
    pub closed spec fn with_config(self, c: DrawConfig) -> Pallet {
        Pallet { active_config: Some(c), ..self }
    }

    /// This state with merchant set root `root`.
    pub closed spec fn with_root(self, root: Hash32) -> Pallet {
        Pallet { merchant_set_root: Some(root), ..self }
    }

    /// This state, paused or not.
    pub closed spec fn with_paused(self, b: bool) -> Pallet {
        Pallet { paused: b, ..self }
    }

    /// This state is `base` with event `e` emitted.
    pub closed spec fn logged_after(self, base: Pallet, e: Event) -> bool {
        &&& self.events@ == base.events@.push(e)
        &&& Pallet { events: base.events, ..self } == base
    }

    /// This state differs from `base` at most in the period revenues.
    pub closed spec fn same_but_revenue(self, base: Pallet) -> bool {
        Pallet { period_tax_revenue: base.period_tax_revenue, ..self } == base
    }

    pub closed spec fn parameters(self) -> LotteryParams {
        self.params
    }

    pub closed spec fn clock(self) -> BlockNumber {
        self.now
    }

    pub closed spec fn config(self) -> Option<DrawConfigView> {
        match self.active_config {
            Some(c) => Some(c@),
            None => None,
        }
    }

    pub closed spec fn draw_map(self) -> Map<DrawId, DrawRecordView> {
        self.draws@.map_values(|r: DrawRecord| r@)
    }

    pub closed spec fn next_draw(self) -> DrawId {
        self.next_draw_id
    }

    pub closed spec fn current(self) -> DrawId {
        self.current_draw
    }

    pub closed spec fn is_paused(self) -> bool {
        self.paused
    }

    pub closed spec fn root(self) -> Option<Hash32> {
        self.merchant_set_root
    }

    pub closed spec fn ticket_map(self) -> Map<Hash32, LotteryTicket> {
        self.tickets@
    }

    pub closed spec fn ticket_counts(self) -> Map<DrawId, u32> {
        self.draw_ticket_count@
    }

    pub closed spec fn entry_map(self) -> Map<DrawId, Seq<Hash32>> {
        self.draw_entries@.map_values(|v: Vec<Hash32>| v@)
    }

    pub closed spec fn entry_nulls(self) -> Set<Nullifier> {
        self.entry_nullifiers@.dom()
    }

    pub closed spec fn claim_nulls(self) -> Set<Nullifier> {
        self.claim_nullifiers@.dom()
    }

    pub closed spec fn roots(self) -> Map<DrawId, Hash32> {
        self.entry_root@
    }

    pub closed spec fn counts(self) -> Map<DrawId, u64> {
        self.entry_count@
    }

    pub closed spec fn commit_map(self) -> Map<(DrawId, AccountId), Commit> {
        self.commits@
    }

    /// The commitment keys in storage order.
    pub closed spec fn commit_keys(self) -> Seq<(DrawId, AccountId)> {
        self.commits.key_seq()
    }

    pub closed spec fn xors(self) -> Map<DrawId, Hash32> {
        self.revealed_xor@
    }

    pub closed spec fn reveals(self) -> Map<DrawId, u32> {
        self.reveal_count@
    }

    pub closed spec fn entropies(self) -> Map<DrawId, Hash32> {
        self.entropy@
    }

    pub closed spec fn winner_map(self) -> Map<(DrawId, u8), Seq<Hash32>> {
        self.winners@.map_values(|v: Vec<Hash32>| v@)
    }

    pub closed spec fn revenue(self) -> Map<DrawId, FiatAmount> {
        self.period_tax_revenue@
    }

    pub closed spec fn pools(self) -> Map<DrawId, FiatAmount> {
        self.prize_pool@
    }

    pub closed spec fn audit(self) -> Map<Hash32, Commitment> {
        self.claim_audit@
    }

    pub closed spec fn elig_vk(self) -> Option<Seq<u8>> {
        match self.eligibility_vk {
            Some(v) => Some(v@),
            None => None,
        }
    }

    pub closed spec fn own_vk(self) -> Option<Seq<u8>> {
        match self.ownership_vk {
            Some(v) => Some(v@),
            None => None,
        }
    }

    pub closed spec fn slashed(self) -> Balance {
        self.total_slashed
    }

    pub closed spec fn log(self) -> Seq<Event> {
        self.events@
    }

    /// An empty lottery with the given parameters and no configuration.
    pub fn new(params: LotteryParams) -> (r: Pallet)
        ensures
            r.wf(),
            r.parameters() == params,
            r.clock() == 0,
            r.config() is None,
            r.draw_map() == Map::<DrawId, DrawRecordView>::empty(),
            r.next_draw() == 0,
            r.current() == 0,
            !r.is_paused(),
            r.root() is None,
            r.ticket_map() == Map::<Hash32, LotteryTicket>::empty(),
            r.entry_map() == Map::<DrawId, Seq<Hash32>>::empty(),
            r.entry_nulls() == Set::<Nullifier>::empty(),
            r.claim_nulls() == Set::<Nullifier>::empty(),
            r.revenue() == Map::<DrawId, FiatAmount>::empty(),
            r.pools() == Map::<DrawId, FiatAmount>::empty(),
            r.commit_map() == Map::<(DrawId, AccountId), Commit>::empty(),
            r.elig_vk() is None,
            r.own_vk() is None,
            r.slashed() == 0,
            r.log() == Seq::<Event>::empty(),
    {
        let r = Pallet {
            params,
            now: 0,
            active_config: None,
            draws: Table::new(),
            next_draw_id: 0,
            current_draw: 0,
            paused: false,
            merchant_set_root: None,
            tickets: Table::new(),
            draw_ticket_count: Table::new(),
            draw_entries: Table::new(),
            entry_nullifiers: Table::new(),
            claim_nullifiers: Table::new(),
            entry_root: Table::new(),
            entry_count: Table::new(),
            commits: Table::new(),
            revealed_xor: Table::new(),
            reveal_count: Table::new(),
            entropy: Table::new(),
            winners: Table::new(),
            period_tax_revenue: Table::new(),
            prize_pool: Table::new(),
            claim_audit: Table::new(),
            eligibility_vk: None,
            ownership_vk: None,
            total_slashed: 0,
            events: Vec::new(),
        };
        assert(r.draw_map() =~= Map::<DrawId, DrawRecordView>::empty());
        assert(r.entry_map() =~= Map::<DrawId, Seq<Hash32>>::empty());
        assert(r.entry_nulls() =~= Set::<Nullifier>::empty());
        assert(r.claim_nulls() =~= Set::<Nullifier>::empty());
        r
    }


    /// Move the clock to block `n` without running the block hook.
    pub fn set_block_number(&mut self, n: BlockNumber)
        requires
            old(self).wf(),
        ensures
            final(self).wf(),
            *final(self) == old(self).with_clock(n),
    {
        self.now = n;
    }

    /// Set the eligibility verifying key (governance origin); it must not be
    /// empty.
    pub fn set_eligibility_vk(&mut self, origin: Origin, vk: Vec<u8>) -> (r: Result<(), Error>)
        requires
            old(self).wf(),
            vk@.len() <= 8192,
        ensures
            r is Err ==> r == Err::<(), Error>(Error::BadOrigin) || r == Err::<(), Error>(Error::InvalidVk),
            final(self).wf(),
            r is Err ==> *final(self) == *old(self),
            (r == Err::<(), Error>(Error::BadOrigin)) == !admits(old(self).parameters().governance, origin),
            admits(old(self).parameters().governance, origin) ==> {
                &&& (r == Err::<(), Error>(Error::InvalidVk)) == (vk@.len() == 0)
                &&& r is Ok ==> final(self).elig_vk() == Some(vk@) && final(self).log() == old(self).log().push(
                    Event::EligibilityVkSet,
                )
            },
            final(self).own_vk() == old(self).own_vk(),
    {
        if !ensure_origin(&self.params.governance, &origin) {
            return Err(Error::BadOrigin);
        }
        if vk.len() == 0 {
            return Err(Error::InvalidVk);
        }
        self.eligibility_vk = Some(vk);
        self.events.push(Event::EligibilityVkSet);
        Ok(())
    }

    /// Set the ownership verifying key (governance origin); it must not be
    /// empty.
    pub fn set_ownership_vk(&mut self, origin: Origin, vk: Vec<u8>) -> (r: Result<(), Error>)
        requires
            old(self).wf(),
            vk@.len() <= 8192,
        ensures
            r is Err ==> r == Err::<(), Error>(Error::BadOrigin) || r == Err::<(), Error>(Error::InvalidVk),
            final(self).wf(),
            r is Err ==> *final(self) == *old(self),
            (r == Err::<(), Error>(Error::BadOrigin)) == !admits(old(self).parameters().governance, origin),
            admits(old(self).parameters().governance, origin) ==> {
                &&& (r == Err::<(), Error>(Error::InvalidVk)) == (vk@.len() == 0)
                &&& r is Ok ==> final(self).own_vk() == Some(vk@) && final(self).log() == old(self).log().push(
                    Event::OwnershipVkSet,
                )
            },
            final(self).elig_vk() == old(self).elig_vk(),
    {
        if !ensure_origin(&self.params.governance, &origin) {
            return Err(Error::BadOrigin);
        }
        if vk.len() == 0 {
            return Err(Error::InvalidVk);
        }
        self.ownership_vk = Some(vk);
        self.events.push(Event::OwnershipVkSet);
        Ok(())
    }

    /// Put a configuration in force (governance origin): the tax ratio may
    /// not exceed the constitutional ceiling and the tier shares must add up
    /// to exactly one whole.
    pub fn set_config(&mut self, origin: Origin, config: DrawConfig) -> (r: Result<(), Error>)
        requires
            old(self).wf(),
            config.eligible_kinds@.len() <= 8,
            config.tiers@.len() <= 16,
        ensures
            r is Err ==> r == Err::<(), Error>(Error::BadOrigin) || r == Err::<(), Error>(Error::RatioTooHigh) || r == Err::<(), Error>(Error::TiersNotExhaustive),
            final(self).wf(),
            r is Err ==> *final(self) == *old(self),
            (r == Err::<(), Error>(Error::BadOrigin)) == !admits(old(self).parameters().governance, origin),
            admits(old(self).parameters().governance, origin) ==> {
                &&& (r == Err::<(), Error>(Error::RatioTooHigh)) == (config.tax_ratio_ppm
                    > old(self).parameters().max_ratio_ppm)
                &&& (r == Err::<(), Error>(Error::TiersNotExhaustive)) == (config.tax_ratio_ppm
                    <= old(self).parameters().max_ratio_ppm && share_sum(config.tiers@) != PPM)
                &&& r is Ok ==> *final(self) == old(self).with_config(config)
            },
    {
        if !ensure_origin(&self.params.governance, &origin) {
            return Err(Error::BadOrigin);
        }
        if config.tax_ratio_ppm > self.params.max_ratio_ppm {
            return Err(Error::RatioTooHigh);
        }
        let mut sum: u32 = 0;
        let mut i: usize = 0;
        while i < config.tiers.len()
            invariant
                i <= config.tiers@.len(),
                sum == share_sum(config.tiers@.subrange(0, i as int)),
            decreases config.tiers@.len() - i,
        {
            proof {
                assert(config.tiers@.subrange(0, i + 1).drop_last() =~= config.tiers@.subrange(0, i as int));
            }
            sum = sum.saturating_add(config.tiers[i].share_ppm);
            i = i + 1;
        }
        assert(config.tiers@.subrange(0, i as int) =~= config.tiers@);
        if sum != PPM {
            return Err(Error::TiersNotExhaustive);
        }
        self.active_config = Some(config);
        Ok(())
    }

    /// Set the merchant set root (registrar origin).
    pub fn set_merchant_set_root(&mut self, origin: Origin, root: Hash32) -> (r: Result<(), Error>)
        requires
            old(self).wf(),
        ensures
            r is Err ==> r == Err::<(), Error>(Error::BadOrigin),
            final(self).wf(),
            r is Err ==> *final(self) == *old(self),
            r is Err <==> !admits(old(self).parameters().registrar, origin),
            r is Err ==> r == Err::<(), Error>(Error::BadOrigin),
            r is Ok ==> final(self).logged_after(old(self).with_root(root), Event::MerchantSetRootSet { root }),
    {
        if !ensure_origin(&self.params.registrar, &origin) {
            return Err(Error::BadOrigin);
        }
        self.merchant_set_root = Some(root);
        self.events.push(Event::MerchantSetRootSet { root });
        Ok(())
    }

    /// Pause the lottery (emergency origin).
    pub fn emergency_pause(&mut self, origin: Origin) -> (r: Result<(), Error>)
        requires
            old(self).wf(),
        ensures
            r is Err ==> r == Err::<(), Error>(Error::BadOrigin),
            final(self).wf(),
            r is Err ==> *final(self) == *old(self),
            r is Err <==> !admits(old(self).parameters().emergency, origin),
            r is Err ==> r == Err::<(), Error>(Error::BadOrigin),
            r is Ok ==> final(self).logged_after(old(self).with_paused(true), Event::LotteryPaused),
    {
        if !ensure_origin(&self.params.emergency, &origin) {
            return Err(Error::BadOrigin);
        }
        self.paused = true;
        self.events.push(Event::LotteryPaused);
        Ok(())
    }

    /// Resume the lottery (governance origin).
    pub fn resume(&mut self, origin: Origin) -> (r: Result<(), Error>)
        requires
            old(self).wf(),
        ensures
            r is Err ==> r == Err::<(), Error>(Error::BadOrigin),
            final(self).wf(),
            r is Err ==> *final(self) == *old(self),
            r is Err <==> !admits(old(self).parameters().governance, origin),
            r is Err ==> r == Err::<(), Error>(Error::BadOrigin),
            r is Ok ==> final(self).logged_after(old(self).with_paused(false), Event::LotteryResumed),
    {
        if !ensure_origin(&self.params.governance, &origin) {
            return Err(Error::BadOrigin);
        }
        self.paused = false;
        self.events.push(Event::LotteryResumed);
        Ok(())
    }

    /// Open a new draw under the configuration in force; its period starts
    /// now, and it becomes the current draw.
    fn do_open_draw(&mut self) -> (r: Result<(), Error>)
        requires
            old(self).wf(),
        ensures
            final(self).wf(),
            r is Err ==> *final(self) == *old(self),
            r is Err ==> r == Err::<(), Error>(Error::ConfigNotSet),
            (r == Err::<(), Error>(Error::ConfigNotSet)) == (old(self).config() is None),
            r is Ok ==> open_effect(*old(self), *final(self)),
    {
        let config = match &self.active_config {
            Some(c) => c.copy(),
            None => return Err(Error::ConfigNotSet),
        };
        let id = self.next_draw_id;
        self.next_draw_id = id.saturating_add(1);
        let start = self.now;
        let end = start.saturating_add(config.period_blocks);
        let record = DrawRecord {
            config,
            period_start_block: start,
            period_end_block: end,
            revenue_snapshot: None,
            state: DrawState::Open,
        };
        let ghost rv = record@;
        self.draws.insert(id, record);
        proof {
            assert(self.draw_map() =~= old(self).draw_map().insert(id, rv));
        }
        self.current_draw = id;
        self.events.push(Event::DrawOpened { draw: id });
        Ok(())
    }

    /// Open a new draw (governance origin).
    pub fn open_draw(&mut self, origin: Origin) -> (r: Result<(), Error>)
        requires
            old(self).wf(),
        ensures
            r is Err ==> r == Err::<(), Error>(Error::BadOrigin) || r == Err::<(), Error>(Error::ConfigNotSet),
            final(self).wf(),
            r is Err ==> *final(self) == *old(self),
            (r == Err::<(), Error>(Error::BadOrigin)) == !admits(old(self).parameters().governance, origin),
            admits(old(self).parameters().governance, origin) ==> {
                &&& (r == Err::<(), Error>(Error::ConfigNotSet)) == (old(self).config() is None)
                &&& r is Ok ==> open_effect(*old(self), *final(self))
            },
    {
        if !ensure_origin(&self.params.governance, &origin) {
            return Err(Error::BadOrigin);
        }
        self.do_open_draw()
    }

    /// Add settled VAT revenue to the current draw's period: amounts in the
    /// period's currency accumulate (saturating), others are ignored.
    pub fn note_settled_revenue(&mut self, amount: FiatAmount)
        requires
            old(self).wf(),
        ensures
            final(self).wf(),
            ({
                let d = old(self).current();
                let rev = old(self).revenue();
                final(self).revenue() == if !rev.contains_key(d) {
                    rev.insert(d, amount)
                } else if rev[d].currency == amount.currency {
                    rev.insert(d, FiatAmount {
                        currency: amount.currency,
                        minor_units: crate::interop::sat_add_u128(rev[d].minor_units as int, amount.minor_units as int) as u128,
                    })
                } else {
                    rev
                }
            }),
            final(self).same_but_revenue(*old(self)),
    {
        let d = self.current_draw;
        match self.period_tax_revenue.get(&d) {
            Some(acc) => {
                if bytes_eq(&acc.currency, &amount.currency) {
                    let updated = FiatAmount {
                        currency: acc.currency,
                        minor_units: acc.minor_units.saturating_add(amount.minor_units),
                    };
                    self.period_tax_revenue.insert(d, updated);
                } else {
                    proof {
                        assert(self.revenue() =~= old(self).revenue());
                    }
                }
            },
            None => {
                self.period_tax_revenue.insert(d, amount);
            },
        }
    }

    /// Feed a settled tax payment into the current period's revenue: only
    /// value-added tax counts toward the prize pool; any other kind leaves
    /// the lottery unchanged.
    pub fn note_settled_tax(&mut self, kind: TaxKind, amount: FiatAmount)
        requires
            old(self).wf(),
        ensures
            final(self).wf(),
            kind != TaxKind::ValueAdded ==> *final(self) == *old(self),
            kind == TaxKind::ValueAdded ==> {
                let d = old(self).current();
                let rev = old(self).revenue();
                &&& final(self).revenue() == if !rev.contains_key(d) {
                    rev.insert(d, amount)
                } else if rev[d].currency == amount.currency {
                    rev.insert(d, FiatAmount {
                        currency: amount.currency,
                        minor_units: crate::interop::sat_add_u128(rev[d].minor_units as int, amount.minor_units as int) as u128,
                    })
                } else {
                    rev
                }
                &&& final(self).same_but_revenue(*old(self))
            },
    {
        if tax_kind_eq(kind, TaxKind::ValueAdded) {
            self.note_settled_revenue(amount);
        }
    }

    /// Start of block `n`: once the current draw's period has ended (and the
    /// lottery is not paused), snapshot its tax revenue (zero in the prize
    /// currency when none was noted), move it to drawing, and open the next
    /// draw.
    pub fn on_initialize(&mut self, n: BlockNumber)
        requires
            old(self).wf(),
        ensures
            final(self).wf(),
            final(self).clock() == n,
            ({
                let d = old(self).current();
                let due = !old(self).is_paused() && old(self).draw_map().contains_key(d)
                    && old(self).draw_map()[d].state == DrawState::Open && n >= old(self).draw_map()[d].period_end_block;
                let rev = if old(self).revenue().contains_key(d) {
                    old(self).revenue()[d]
                } else {
                    FiatAmount { currency: old(self).parameters().prize_currency, minor_units: 0 }
                };
                let closed = old(self).draw_map().insert(d, DrawRecordView {
                    revenue_snapshot: Some(rev),
                    state: DrawState::Drawing,
                    ..old(self).draw_map()[d]
                });
                let logged = old(self).log().push(Event::RevenueSnapshotted { draw: d, revenue: rev });
                let id = old(self).next_draw();
                &&& !due ==> *final(self) == old(self).with_clock(n)
                &&& due && old(self).config() is None ==> {
                    &&& final(self).draw_map() == closed
                    &&& final(self).log() == logged
                    &&& final(self).current() == d
                    &&& final(self).next_draw() == id
                }
                &&& due && old(self).config() is Some ==> {
                    let c = old(self).config()->0;
                    &&& final(self).draw_map() == closed.insert(id, DrawRecordView {
                        config: c,
                        period_start_block: n,
                        period_end_block: (if n + c.period_blocks > u32::MAX { u32::MAX as int } else { n + c.period_blocks }) as BlockNumber,
                        revenue_snapshot: None,
                        state: DrawState::Open,
                    })
                    &&& final(self).log() == logged.push(Event::DrawOpened { draw: id })
                    &&& final(self).current() == id
                    &&& final(self).next_draw() == (if id == u64::MAX { id } else { (id + 1) as u64 })
                }
                &&& due ==> {
                    &&& final(self).config() == old(self).config()
                    &&& final(self).is_paused() == old(self).is_paused()
                    &&& final(self).ticket_map() == old(self).ticket_map()
                    &&& final(self).entry_map() == old(self).entry_map()
                    &&& final(self).revenue() == old(self).revenue()
                    &&& final(self).pools() == old(self).pools()
                    &&& final(self).commit_map() == old(self).commit_map()
                    &&& final(self).entry_nulls() == old(self).entry_nulls()
                    &&& final(self).claim_nulls() == old(self).claim_nulls()
                    &&& final(self).parameters() == old(self).parameters()
                }
            }),
    {
        self.now = n;
        if self.paused {
            return;
        }
        let d = self.current_draw;
        let rec = match self.draws.get(&d) {
            Some(r) => r,
            None => return,
        };
        let is_open = match rec.state {
            DrawState::Open => true,
            _ => false,
        };
        if !is_open || n < rec.period_end_block {
            return;
        }
        let revenue = match self.period_tax_revenue.get(&d) {
            Some(a) => *a,
            None => FiatAmount { currency: self.params.prize_currency, minor_units: 0 },
        };
        let mut updated = rec.copy();
        updated.revenue_snapshot = Some(revenue);
        updated.state = DrawState::Drawing;
        let ghost uv = updated@;
        self.draws.insert(d, updated);
        proof {
            assert(self.draw_map() =~= old(self).draw_map().insert(d, uv));
        }
        self.events.push(Event::RevenueSnapshotted { draw: d, revenue });
        let _ = self.do_open_draw();
    }


    /// Commit to a seed for a draw's entropy, reserving the commit bond
    /// (signed origin); one commitment per account and draw, before the
    /// commit deadline. Whether the bond can be reserved is the currency's
    /// answer.
    pub fn commit<C: ReservableCurrency>(&mut self, origin: Origin, draw_id: DrawId, commitment: Hash32, currency: &mut C) -> (r: Result<(), Error>)
        requires
            old(self).wf(),
        ensures
            final(self).wf(),
            r is Err ==> *final(self) == *old(self),
            (r == Err::<(), Error>(Error::BadOrigin)) == !(origin is Signed),
            signer_of(origin) matches Some(who) ==> {
                let m = old(self).draw_map();
                &&& (r == Err::<(), Error>(Error::UnknownDraw)) == !m.contains_key(draw_id)
                &&& (r == Err::<(), Error>(Error::CommitClosed)) == (m.contains_key(draw_id) && old(self).clock()
                    > m[draw_id].config.commit_deadline)
                &&& (r == Err::<(), Error>(Error::AlreadyCommitted)) == (m.contains_key(draw_id) && old(self).clock()
                    <= m[draw_id].config.commit_deadline && old(self).commit_map().contains_key((draw_id, who)))
                &&& r is Err ==> r != Err::<(), Error>(Error::InsufficientBalance) ==> *final(currency) == *old(currency)
                &&& (r is Ok || r == Err::<(), Error>(Error::InsufficientBalance)) ==> m.contains_key(draw_id)
                    && old(self).clock() <= m[draw_id].config.commit_deadline && !old(self).commit_map().contains_key(
                    (draw_id, who),
                )
                &&& r is Ok ==> final(self).commit_map() == old(self).commit_map().insert(
                    (draw_id, who),
                    Commit { commitment, revealed: false },
                ) && final(self).log() == old(self).log().push(Event::Committed { draw: draw_id, who })
                    && final(self).draw_map() == old(self).draw_map()
                &&& r is Ok ==> final(currency).bond_ops() == old(currency).bond_ops().push(
                    BondOp::Reserve(who, old(self).parameters().commit_deposit),
                )
                &&& r is Err ==> final(currency).bond_ops() == old(currency).bond_ops()
                &&& m.contains_key(draw_id) && old(self).clock() <= m[draw_id].config.commit_deadline
                    && !old(self).commit_map().contains_key((draw_id, who)) ==> (r is Ok <==> old(currency).can_reserve(
                    who,
                    old(self).parameters().commit_deposit,
                ))
            },
            r is Err ==> r == Err::<(), Error>(Error::BadOrigin) || r == Err::<(), Error>(Error::UnknownDraw)
                || r == Err::<(), Error>(Error::CommitClosed) || r == Err::<(), Error>(Error::AlreadyCommitted)
                || r == Err::<(), Error>(Error::InsufficientBalance),
    {
        let who = match ensure_signed(&origin) {
            Some(a) => a,
            None => return Err(Error::BadOrigin),
        };
        let deadline = match self.draws.get(&draw_id) {
            Some(rec) => rec.config.commit_deadline,
            None => return Err(Error::UnknownDraw),
        };
        if self.now > deadline {
            return Err(Error::CommitClosed);
        }
        if self.commits.contains_key(&(draw_id, who)) {
            return Err(Error::AlreadyCommitted);
        }
        match currency.reserve(&who, self.params.commit_deposit) {
            Ok(()) => {},
            Err(_) => return Err(Error::InsufficientBalance),
        }
        self.commits.insert((draw_id, who), Commit { commitment, revealed: false });
        self.events.push(Event::Committed { draw: draw_id, who });
        Ok(())
    }

    /// Reveal a committed seed (signed origin) by its seed and salt, before
    /// the reveal deadline and strictly before the finalize block: the seed
    /// is XORed into the draw's accumulator, the reveal count grows, and the
    /// bond is released.
    pub fn reveal_seed<C: ReservableCurrency>(&mut self, origin: Origin, draw_id: DrawId, seed: Hash32, salt: Hash32, currency: &mut C) -> (r: Result<(), Error>)
        requires
            old(self).wf(),
        ensures
            final(self).wf(),
            r is Err ==> *final(self) == *old(self) && *final(currency) == *old(currency),
            (r == Err::<(), Error>(Error::BadOrigin)) == !(origin is Signed),
            signer_of(origin) matches Some(who) ==> {
                let m = old(self).draw_map();
                let c = m[draw_id].config;
                let now = old(self).clock();
                let cm = old(self).commit_map();
                let ok_commit = cm.contains_key((draw_id, who)) && !cm[(draw_id, who)].revealed
                    && commitment_of(seed, salt) == cm[(draw_id, who)].commitment@;
                &&& (r == Err::<(), Error>(Error::UnknownDraw)) == !m.contains_key(draw_id)
                &&& m.contains_key(draw_id) ==> {
                    &&& (r == Err::<(), Error>(Error::BadReveal)) == (now > c.reveal_deadline || (now
                        < c.finalize_block && !ok_commit))
                    &&& (r == Err::<(), Error>(Error::RevealAfterFinalizeBlock)) == (now <= c.reveal_deadline
                        && now >= c.finalize_block)
                    &&& r is Ok ==> {
                        let prev = xor_view(old(self).xors(), draw_id);
                        &&& final(self).commit_map() == cm.insert((draw_id, who), Commit { revealed: true, ..cm[(draw_id, who)] })
                        &&& final(self).xors().contains_key(draw_id)
                        &&& final(self).xors()[draw_id]@ == xor32(prev, seed@)
                        &&& final(self).reveals() == old(self).reveals().insert(
                            draw_id,
                            sat_add_u32(count_of(old(self).reveals(), draw_id, 0u32) as int, 1) as u32,
                        )
                        &&& final(self).log() == old(self).log().push(Event::Revealed { draw: draw_id, who })
                        &&& final(self).draw_map() == old(self).draw_map()
                        &&& final(currency).bond_ops() == old(currency).bond_ops().push(
                            BondOp::Unreserve(who, old(self).parameters().commit_deposit),
                        )
                    }
                }
            },
            r is Err ==> r == Err::<(), Error>(Error::BadOrigin) || r == Err::<(), Error>(Error::UnknownDraw)
                || r == Err::<(), Error>(Error::BadReveal) || r == Err::<(), Error>(Error::RevealAfterFinalizeBlock),
    {
        let who = match ensure_signed(&origin) {
            Some(a) => a,
            None => return Err(Error::BadOrigin),
        };
        let (reveal_deadline, finalize_block) = match self.draws.get(&draw_id) {
            Some(rec) => (rec.config.reveal_deadline, rec.config.finalize_block),
            None => return Err(Error::UnknownDraw),
        };
        let now = self.now;
        if now > reveal_deadline {
            return Err(Error::BadReveal);
        }
        if now >= finalize_block {
            return Err(Error::RevealAfterFinalizeBlock);
        }
        let c = match self.commits.get(&(draw_id, who)) {
            Some(c) => *c,
            None => return Err(Error::BadReveal),
        };
        if c.revealed {
            return Err(Error::BadReveal);
        }
        let h = commit_hash(&seed, &salt);
        if !bytes_eq(&h, &c.commitment) {
            return Err(Error::BadReveal);
        }
        self.commits.insert((draw_id, who), Commit { commitment: c.commitment, revealed: true });
        let mut acc: Hash32 = match self.revealed_xor.get(&draw_id) {
            Some(x) => *x,
            None => zero_hash(),
        };
        xor_into(&mut acc, &seed);
        self.revealed_xor.insert(draw_id, acc);
        let n: u32 = match self.reveal_count.get(&draw_id) {
            Some(n) => *n,
            None => 0,
        };
        self.reveal_count.insert(draw_id, n.saturating_add(1));
        currency.unreserve(&who, self.params.commit_deposit);
        self.events.push(Event::Revealed { draw: draw_id, who });
        Ok(())
    }

    /// Seal a drawing draw's entry set (governance origin): the entries are
    /// put in canonical (ascending) order and committed to by the BLAKE2-256
    /// hash of their concatenation.
    pub fn seal_entry_set(&mut self, origin: Origin, draw_id: DrawId) -> (r: Result<(), Error>)
        requires
            old(self).wf(),
        ensures
            r is Err ==> r == Err::<(), Error>(Error::BadOrigin) || r == Err::<(), Error>(Error::RevenueNotSnapshotted) || r == Err::<(), Error>(Error::UnknownDraw) || r == Err::<(), Error>(Error::WrongPhase),
            final(self).wf(),
            r is Err ==> *final(self) == *old(self),
            (r == Err::<(), Error>(Error::BadOrigin)) == !admits(old(self).parameters().governance, origin),
            admits(old(self).parameters().governance, origin) ==> {
                let m = old(self).draw_map();
                &&& (r == Err::<(), Error>(Error::UnknownDraw)) == !m.contains_key(draw_id)
                &&& (r == Err::<(), Error>(Error::WrongPhase)) == (m.contains_key(draw_id) && m[draw_id].state
                    != DrawState::Drawing)
                &&& (r == Err::<(), Error>(Error::RevenueNotSnapshotted)) == (m.contains_key(draw_id)
                    && m[draw_id].state == DrawState::Drawing && m[draw_id].revenue_snapshot is None)
                &&& r is Ok ==> {
                    let before = entries_of(old(self).entry_map(), draw_id);
                    let after = final(self).entry_map()[draw_id];
                    &&& final(self).entry_map().contains_key(draw_id)
                    &&& sorted_hashes(after)
                    &&& after.to_multiset() == before.to_multiset()
                    &&& final(self).roots() == old(self).roots().insert(
                        draw_id,
                        final(self).roots()[draw_id],
                    )
                    &&& final(self).roots()[draw_id]@ == blake2_256_of(crate::zk::bbs::concat_hashes(after))
                    &&& final(self).counts() == old(self).counts().insert(draw_id, before.len() as u64)
                    &&& final(self).log() == old(self).log().push(
                        Event::EntrySetSealed { draw: draw_id, count: before.len() as u64 },
                    )
                    &&& final(self).draw_map() == old(self).draw_map()
                }
            },
    {
        if !ensure_origin(&self.params.governance, &origin) {
            return Err(Error::BadOrigin);
        }
        let (is_drawing, has_snapshot) = match self.draws.get(&draw_id) {
            Some(rec) => (
                match rec.state {
                    DrawState::Drawing => true,
                    _ => false,
                },
                rec.revenue_snapshot.is_some(),
            ),
            None => return Err(Error::UnknownDraw),
        };
        if !is_drawing {
            return Err(Error::WrongPhase);
        }
        if !has_snapshot {
            return Err(Error::RevenueNotSnapshotted);
        }
        proof {
            use_wf_entries(*self, draw_id);
        }
        let mut entries: Vec<Hash32> = match self.draw_entries.get(&draw_id) {
            Some(v) => copy_vec(v.as_slice()),
            None => Vec::new(),
        };
        let ghost before = entries@;
        sort_hashes(&mut entries);
        let count = entries.len() as u64;
        let mut buf: Vec<u8> = Vec::new();
        let mut i: usize = 0;
        while i < entries.len()
            invariant
                i <= entries@.len(),
                buf@ == crate::zk::bbs::concat_hashes(entries@.subrange(0, i as int)),
            decreases entries@.len() - i,
        {
            let ghost b0 = buf@;
            let h = entries[i];
            let mut k: usize = 0;
            while k < 32
                invariant
                    k <= 32,
                    buf@ == b0 + h@.subrange(0, k as int),
                decreases 32 - k,
            {
                buf.push(h[k]);
                k = k + 1;
                assert(buf@ =~= b0 + h@.subrange(0, k as int));
            }
            proof {
                assert(h@.subrange(0, 32) =~= h@);
                assert(entries@.subrange(0, i + 1).drop_last() =~= entries@.subrange(0, i as int));
            }
            i = i + 1;
        }
        assert(entries@.subrange(0, i as int) =~= entries@);
        let root = blake2_256(buf.as_slice());
        let ghost sorted = entries@;
        proof {
            lemma_sorted_keeps_tickets(before, sorted, self.tickets@);
        }
        self.draw_entries.insert(draw_id, entries);
        self.entry_root.insert(draw_id, root);
        self.entry_count.insert(draw_id, count);
        self.events.push(Event::EntrySetSealed { draw: draw_id, count });
        proof {
            assert(self.entry_map() =~= old(self).entry_map().insert(draw_id, sorted));
            assert forall|d: DrawId| #[trigger] self.draw_entries@.contains_key(d) implies ({
                let e = self.draw_entries@[d]@;
                &&& e.no_duplicates()
                &&& e.len() <= MAX_ENTRIES
                &&& forall|i: int| 0 <= i < e.len() ==> #[trigger] self.tickets@.contains_key(e[i])
            }) by {
                if d != draw_id {
                    assert(old(self).draw_entries@.contains_key(d));
                }
            }
        }
        Ok(())
    }


    /// Fund a draw's prize pool (governance origin): the configured share
    /// of the snapshotted revenue, capped by the configured share of the
    /// attested eTWD reserve, and debited from that reserve. Both amounts
    /// must be in the prize currency.
    pub fn fund_period<A: AttestedReserve>(&mut self, origin: Origin, draw_id: DrawId, reserve: &mut A) -> (r: Result<(), Error>)
        requires
            old(self).wf(),
        ensures
            final(self).wf(),
            r is Err ==> *final(self) == *old(self),
            (r == Err::<(), Error>(Error::BadOrigin)) == !admits(old(self).parameters().governance, origin),
            admits(old(self).parameters().governance, origin) ==> {
                let m = old(self).draw_map();
                let prize = old(self).parameters().prize_currency;
                &&& (r == Err::<(), Error>(Error::UnknownDraw)) == !m.contains_key(draw_id)
                &&& (r == Err::<(), Error>(Error::RevenueNotSnapshotted)) == (m.contains_key(draw_id)
                    && m[draw_id].revenue_snapshot is None)
                &&& m[draw_id].revenue_snapshot matches Some(rev) ==> m.contains_key(draw_id) ==> {
                    &&& rev.currency != prize ==> r == Err::<(), Error>(Error::CurrencyMismatch)
                    &&& rev.currency == prize ==> funding_outcome(
                        *old(self),
                        *final(self),
                        draw_id,
                        rev,
                        old(reserve).attested(),
                        r,
                    )
                    &&& rev.currency == prize && old(reserve).attested().currency == prize ==> (r is Ok
                        <==> old(reserve).can_debit(funding_pool(*old(self), draw_id, rev, old(reserve).attested())))
                }
            },
            r is Err ==> r == Err::<(), Error>(Error::BadOrigin) || r == Err::<(), Error>(Error::UnknownDraw)
                || r == Err::<(), Error>(Error::RevenueNotSnapshotted) || r == Err::<(), Error>(Error::CurrencyMismatch)
                || r == Err::<(), Error>(Error::InsufficientReserve),
            r is Ok ==> final(reserve).debits() == old(reserve).debits().push(final(self).pools()[draw_id]),
            r is Err ==> final(reserve).debits() == old(reserve).debits(),
            final(reserve).credits() == old(reserve).credits(),
    {
        if !ensure_origin(&self.params.governance, &origin) {
            return Err(Error::BadOrigin);
        }
        let (revenue, ratio, cap_ppm) = match self.draws.get(&draw_id) {
            Some(rec) => match rec.revenue_snapshot {
                Some(rev) => (rev, rec.config.tax_ratio_ppm, rec.config.reserve_cap_ppm),
                None => return Err(Error::RevenueNotSnapshotted),
            },
            None => return Err(Error::UnknownDraw),
        };
        let prize = self.params.prize_currency;
        if !bytes_eq(&revenue.currency, &prize) {
            return Err(Error::CurrencyMismatch);
        }
        let raw = mul_div_ppm(revenue.minor_units, ratio);
        let attested = reserve.attested_balance();
        let ghost att = attested;
        if !bytes_eq(&attested.currency, &prize) {
            proof {
                assert(funding_outcome(*old(self), *self, draw_id, revenue, att, Err(Error::CurrencyMismatch)));
            }
            return Err(Error::CurrencyMismatch);
        }
        let cap = mul_div_ppm(attested.minor_units, cap_ppm);
        let pool_minor = if raw < cap { raw } else { cap };
        let pool = FiatAmount { currency: prize, minor_units: pool_minor };
        match reserve.try_debit(pool) {
            Ok(()) => {},
            Err(_) => {
                proof {
                    assert(funding_outcome(*old(self), *self, draw_id, revenue, att, Err(Error::InsufficientReserve)));
                }
                return Err(Error::InsufficientReserve);
            },
        }
        self.prize_pool.insert(draw_id, pool);
        if raw > cap {
            self.events.push(Event::PrizePoolCapped { draw: draw_id, pool });
        }
        self.events.push(Event::PrizePoolFunded { draw: draw_id, revenue, pool });
        proof {
            assert(funding_outcome(*old(self), *self, draw_id, revenue, att, Ok(())));
        }
        Ok(())
    }

    /// Close an expired draw (signed origin): after its claim window, the
    /// unclaimed pool returns to the attested reserve and the draw is settled.
    pub fn sweep_expired<A: AttestedReserve>(&mut self, origin: Origin, draw_id: DrawId, reserve: &mut A) -> (r: Result<(), Error>)
        requires
            old(self).wf(),
        ensures
            final(self).wf(),
            r is Err ==> *final(self) == *old(self) && *final(reserve) == *old(reserve),
            (r == Err::<(), Error>(Error::BadOrigin)) == !(origin is Signed),
            origin is Signed ==> {
                let m = old(self).draw_map();
                let c = m[draw_id].config;
                let deadline = sat_add_u32(c.finalize_block as int, c.claim_window as int);
                &&& (r == Err::<(), Error>(Error::UnknownDraw)) == !m.contains_key(draw_id)
                &&& (r == Err::<(), Error>(Error::NotYetExpired)) == (m.contains_key(draw_id) && old(self).clock()
                    <= deadline)
                &&& r is Ok ==> {
                    let p = old(self).pools();
                    let refund = m[draw_id].state != DrawState::Settled && p.contains_key(draw_id)
                        && p[draw_id].minor_units > 0;
                    &&& final(self).draw_map() == m.insert(draw_id, DrawRecordView { state: DrawState::Settled, ..m[draw_id] })
                    &&& m[draw_id].state != DrawState::Settled ==> final(self).pools() == old(self).pools().remove(draw_id)
                    &&& m[draw_id].state == DrawState::Settled ==> final(self).pools() == old(self).pools()
                    &&& refund ==> final(reserve).credits() == old(reserve).credits().push(p[draw_id])
                    &&& refund ==> final(self).log() == old(self).log().push(
                        Event::ExpiredSwept { draw: draw_id, amount: p[draw_id] },
                    )
                    &&& !refund ==> final(reserve).credits() == old(reserve).credits()
                    &&& !refund ==> final(self).log() == old(self).log()
                    &&& final(reserve).debits() == old(reserve).debits()
                    &&& same_settings(*old(self), *final(self))
                    &&& same_seeds(*old(self), *final(self))
                    &&& same_sealing(*old(self), *final(self))
                    &&& same_tickets(*old(self), *final(self))
                }
            },
            r is Err ==> r == Err::<(), Error>(Error::BadOrigin) || r == Err::<(), Error>(Error::UnknownDraw)
                || r == Err::<(), Error>(Error::NotYetExpired),
    {
        match origin {
            Origin::Signed(_) => {},
            _ => return Err(Error::BadOrigin),
        }
        let rec = match self.draws.get(&draw_id) {
            Some(rec) => rec,
            None => return Err(Error::UnknownDraw),
        };
        let deadline = rec.config.finalize_block.saturating_add(rec.config.claim_window);
        if self.now <= deadline {
            return Err(Error::NotYetExpired);
        }
        let settled = match rec.state {
            DrawState::Settled => true,
            _ => false,
        };
        if !settled {
            let mut updated = rec.copy();
            updated.state = DrawState::Settled;
            match self.prize_pool.remove(&draw_id) {
                Some(residual) => {
                    if residual.minor_units > 0 {
                        reserve.credit(residual);
                        self.events.push(Event::ExpiredSwept { draw: draw_id, amount: residual });
                    }
                },
                None => {},
            }
            let ghost uv = updated@;
            self.draws.insert(draw_id, updated);
            proof {
                assert(self.draw_map() =~= old(self).draw_map().insert(draw_id, uv));
            }
        } else {
            proof {
                assert(old(self).draw_map().insert(draw_id, DrawRecordView { state: DrawState::Settled, ..old(self).draw_map()[draw_id] }) =~= old(self).draw_map());
            }
        }
        Ok(())
    }


    /// Register an anchored invoice as a ticket of the current draw (signed
    /// origin), with a zero-knowledge eligibility proof and a canonical,
    /// unused entry nullifier. The invoice registry's answers (anchored, kind,
    /// anchoring block) are its reads of the invoice; the result is
    /// [`ticket_result`] for them.
    pub fn register_ticket<R: InvoiceRegistry>(
        &mut self,
        origin: Origin,
        invoice_hash: Hash32,
        owner_commitment: Commitment,
        proof: Vec<u8>,
        nullifier: Nullifier,
        tax: &R,
    ) -> (r: Result<(), Error>)
        requires
            old(self).wf(),
        ensures
            final(self).wf(),
            r is Err ==> *final(self) == *old(self),
            r == ticket_result(
                *old(self),
                origin,
                invoice_hash,
                proof@,
                nullifier,
                tax.anchored_view(invoice_hash),
                tax.kind_view(invoice_hash),
                tax.block_view(invoice_hash),
            ),
            r is Ok ==> ticket_effect(*old(self), *final(self), invoice_hash, owner_commitment, nullifier),
    {
        let anchored = tax.is_anchored(&invoice_hash);
        let kind = tax.invoice_kind(&invoice_hash);
        let block = tax.anchored_block(&invoice_hash);
        self.register_ticket_answered(origin, invoice_hash, owner_commitment, proof, nullifier, anchored, kind, block)
    }

    /// Register a ticket given the registry's answers for the invoice:
    /// whether it is anchored, its kind, and its anchoring block.
    pub fn register_ticket_answered(
        &mut self,
        origin: Origin,
        invoice_hash: Hash32,
        owner_commitment: Commitment,
        proof: Vec<u8>,
        nullifier: Nullifier,
        anchored: bool,
        kind: Option<TaxKind>,
        block: Option<BlockNumber>,
    ) -> (r: Result<(), Error>)
        requires
            old(self).wf(),
        ensures
            final(self).wf(),
            r is Err ==> *final(self) == *old(self),
            r == ticket_result(*old(self), origin, invoice_hash, proof@, nullifier, anchored, kind, block),
            r is Ok ==> ticket_effect(*old(self), *final(self), invoice_hash, owner_commitment, nullifier),
    {
        match origin {
            Origin::Signed(_) => {},
            _ => {
                proof {
                    assert(ticket_result(*old(self), origin, invoice_hash, proof@, nullifier, anchored, kind, block) == Err::<(), Error>(Error::BadOrigin));
                }
                return Err(Error::BadOrigin);
            },
        }
        if self.paused {
            proof {
                assert(ticket_result(*old(self), origin, invoice_hash, proof@, nullifier, anchored, kind, block) == Err::<(), Error>(Error::LotteryIsPaused));
            }
            return Err(Error::LotteryIsPaused);
        }
        if !anchored {
            proof {
                assert(ticket_result(*old(self), origin, invoice_hash, proof@, nullifier, anchored, kind, block) == Err::<(), Error>(Error::InvoiceNotAnchored));
            }
            return Err(Error::InvoiceNotAnchored);
        }
        let k = match kind {
            Some(k) => k,
            None => {
                proof {
                    assert(ticket_result(*old(self), origin, invoice_hash, proof@, nullifier, anchored, kind, block) == Err::<(), Error>(Error::InvoiceNotAnchored));
                }
                return Err(Error::InvoiceNotAnchored);
            },
        };
        let listed = match &self.active_config {
            Some(c) => kinds_contain(&c.eligible_kinds, k),
            None => {
                proof {
                    assert(ticket_result(*old(self), origin, invoice_hash, proof@, nullifier, anchored, kind, block) == Err::<(), Error>(Error::ConfigNotSet));
                }
                return Err(Error::ConfigNotSet);
            },
        };
        if !listed {
            proof {
                assert(ticket_result(*old(self), origin, invoice_hash, proof@, nullifier, anchored, kind, block) == Err::<(), Error>(Error::IneligibleInvoiceKind));
            }
            return Err(Error::IneligibleInvoiceKind);
        }
        if block.is_none() {
            proof {
                assert(ticket_result(*old(self), origin, invoice_hash, proof@, nullifier, anchored, kind, block) == Err::<(), Error>(Error::InvoiceNotAnchored));
            }
            return Err(Error::InvoiceNotAnchored);
        }
        let r = self.register_checked(origin, invoice_hash, owner_commitment, proof, nullifier, Ghost(anchored), Ghost(kind), Ghost(block));
        proof {
            assert(ticket_result(*old(self), origin, invoice_hash, proof@, nullifier, anchored, kind, block) == r);
        }
        r
    }

    /// The checks of a registration from the current draw onwards.
    fn register_checked(
        &mut self,
        origin: Origin,
        invoice_hash: Hash32,
        owner_commitment: Commitment,
        proof: Vec<u8>,
        nullifier: Nullifier,
        Ghost(anchored): Ghost<bool>,
        Ghost(kind): Ghost<Option<TaxKind>>,
        Ghost(block): Ghost<Option<BlockNumber>>,
    ) -> (r: Result<(), Error>)
        requires
            old(self).wf(),
            origin is Signed,
            !old(self).is_paused(),
            anchored,
            kind is Some,
            old(self).config() is Some,
            kind_listed(old(self).config()->0.eligible_kinds, kind->0),
            block is Some,
        ensures
            final(self).wf(),
            r is Err ==> *final(self) == *old(self),
            ticket_result(*old(self), origin, invoice_hash, proof@, nullifier, anchored, kind, block) == r,
            r is Ok ==> ticket_effect(*old(self), *final(self), invoice_hash, owner_commitment, nullifier),
    {
        let d = self.current_draw;
        let st = match self.draws.get(&d) {
            Some(rec) => rec.state,
            None => return Err(Error::UnknownDraw),
        };
        match phase(st) {
            Phase::Open => {},
            _ => return Err(Error::DrawClosed),
        }
        if self.tickets.contains_key(&invoice_hash) {
            return Err(Error::TicketAlreadyRegistered);
        }
        if !is_canonical_scalar(&nullifier) {
            return Err(Error::NonCanonicalNullifier);
        }
        if self.entry_nullifiers.contains_key(&nullifier) {
            return Err(Error::NullifierUsed);
        }
        let root = match self.merchant_set_root {
            Some(root) => root,
            None => return Err(Error::MerchantRootUnset),
        };
        let vk = match &self.eligibility_vk {
            Some(vk) => vk,
            None => return Err(Error::InvalidVk),
        };
        let verdict = lottery_eligibility::verify(
            proof.as_slice(),
            vk.as_slice(),
            &invoice_hash,
            &root,
            d,
            self.params.age_threshold,
            &nullifier,
        );
        let ok = match verdict {
            Ok(b) => b,
            Err(_) => false,
        };
        proof {
            let ghost s0 = choose|s: Seq<Fr>|
                eligibility_inputs_ok(invoice_hash, root, d, self.params.age_threshold, nullifier, s)
                    && verdict == groth16_bytes_verdict(proof@, vk@, s);
            if !ok {
                assert forall|s: Seq<Fr>| #[trigger] eligibility_inputs_ok(invoice_hash, root, d, self.params.age_threshold, nullifier, s)
                    implies groth16_bytes_verdict(proof@, vk@, s) != Ok::<bool, VerifyError>(true) by {
                    lemma_eligibility_inputs_unique(invoice_hash, root, d, self.params.age_threshold, nullifier, s, s0);
                }
            }
        }
        if !ok {
            return Err(Error::InvalidProof);
        }
        proof {
            use_wf_entries(*self, d);
        }
        let mut entries: Vec<Hash32> = match self.draw_entries.get(&d) {
            Some(v) => copy_vec(v.as_slice()),
            None => Vec::new(),
        };
        if entries.len() >= MAX_ENTRIES as usize {
            return Err(Error::TooManyEntries);
        }
        let ghost before = entries@;
        entries.push(invoice_hash);
        let ghost ev = entries@;
        self.tickets.insert(invoice_hash, LotteryTicket { draw: d, owner_commitment, registered_at: self.now });
        self.entry_nullifiers.insert(nullifier, ());
        self.draw_entries.insert(d, entries);
        let n: u32 = match self.draw_ticket_count.get(&d) {
            Some(n) => *n,
            None => 0,
        };
        self.draw_ticket_count.insert(d, n.saturating_add(1));
        self.events.push(Event::TicketRegistered { invoice_hash, draw: d });
        proof {
            assert(self.entry_map() =~= old(self).entry_map().insert(d, ev));
            assert(self.entry_nulls() =~= old(self).entry_nulls().insert(nullifier));
            assert forall|d2: DrawId| #[trigger] self.draw_entries@.contains_key(d2) implies ({
                let e = self.draw_entries@[d2]@;
                &&& e.no_duplicates()
                &&& e.len() <= MAX_ENTRIES
                &&& forall|i: int| 0 <= i < e.len() ==> #[trigger] self.tickets@.contains_key(e[i])
            }) by {
                if d2 != d {
                    assert(old(self).draw_entries@.contains_key(d2));
                    let e = self.draw_entries@[d2]@;
                    assert forall|i: int| 0 <= i < e.len() implies #[trigger] self.tickets@.contains_key(e[i]) by {
                        assert(old(self).tickets@.contains_key(e[i]));
                    }
                } else {
                    let e = self.draw_entries@[d2]@;
                    assert(e == before.push(invoice_hash));
                    assert forall|a: int, b: int| 0 <= a < e.len() && 0 <= b < e.len() && a != b implies e[a] != e[b] by {
                        if a == before.len() as int {
                            assert(old(self).tickets@.contains_key(e[b]));
                        } else if b == before.len() as int {
                            assert(old(self).tickets@.contains_key(e[a]));
                        }
                    }
                    assert forall|i: int| 0 <= i < e.len() implies #[trigger] self.tickets@.contains_key(e[i]) by {
                        if i < before.len() {
                            assert(old(self).tickets@.contains_key(e[i]));
                        }
                    }
                }
            }
        }
        Ok(())
    }

    /// Claim a prize (signed origin, so relayable): a zero-knowledge
    /// ownership proof binds the ticket's owner commitment, the draw, the
    /// beneficiary, the claim nullifier and the viewing-key commitment. The
    /// amount owed is [`claim_result`]'s; the treasury pays it under a fresh
    /// receipt key, and only a payout it accepts is recorded.
    pub fn claim_prize<P: TreasuryPayout>(
        &mut self,
        origin: Origin,
        draw_id: DrawId,
        tier: u8,
        invoice_hash: Hash32,
        beneficiary: AccountId,
        proof: Vec<u8>,
        nullifier: Nullifier,
        viewing_key_commitment: Commitment,
        treasury: &mut P,
    ) -> (r: Result<(), Error>)
        requires
            old(self).wf(),
        ensures
            final(self).wf(),
            r is Err ==> *final(self) == *old(self),
            ({
                let c = claim_result(
                    *old(self),
                    origin,
                    draw_id,
                    tier,
                    invoice_hash,
                    beneficiary,
                    proof@,
                    nullifier,
                    viewing_key_commitment,
                );
                &&& c matches Err(e) ==> r == Err::<(), Error>(e)
                &&& r is Ok ==> {
                    let paid = final(treasury).payouts();
                    &&& paid.len() == old(treasury).payouts().len() + 1
                    &&& paid.drop_last() == old(treasury).payouts()
                    &&& paid.last().0 == beneficiary
                    &&& paid.last().1@ == receipt_key_of(invoice_hash, nullifier)
                    &&& paid.last().2 == c->Ok_0
                }
                &&& r is Err ==> final(treasury).payouts() == old(treasury).payouts()
                &&& c is Ok ==> exists|key: Hash32| {
                    &&& #[trigger] key@ == receipt_key_of(invoice_hash, nullifier)
                    &&& (r is Ok <==> old(treasury).accepts(beneficiary, key, c->Ok_0))
                    &&& r is Err ==> r == Err::<(), Error>(old(treasury).refusal(beneficiary, key, c->Ok_0))
                }
                &&& r is Ok ==> c is Ok && claim_effect(
                    *old(self),
                    *final(self),
                    draw_id,
                    tier,
                    invoice_hash,
                    nullifier,
                    viewing_key_commitment,
                    c->Ok_0,
                )
            }),
    {
        match origin {
            Origin::Signed(_) => {},
            _ => return Err(Error::BadOrigin),
        }
        if self.paused {
            return Err(Error::LotteryIsPaused);
        }
        let (state, finalize, window, tiers_rec) = match self.draws.get(&draw_id) {
            Some(rec) => (rec.state, rec.config.finalize_block, rec.config.claim_window, first_tier(&rec.config.tiers, tier)),
            None => return Err(Error::UnknownDraw),
        };
        match state {
            DrawState::Drawn => {},
            DrawState::Settled => {},
            _ => return Err(Error::WrongPhase),
        }
        if self.now > finalize.saturating_add(window) {
            return Err(Error::ClaimWindowClosed);
        }
        let won = match self.winners.get(&(draw_id, tier)) {
            Some(w) => hashes_contain(w, &invoice_hash),
            None => false,
        };
        if !won {
            return Err(Error::NotAWinner);
        }
        if !is_canonical_scalar(&nullifier) {
            return Err(Error::NonCanonicalNullifier);
        }
        if self.claim_nullifiers.contains_key(&nullifier) {
            return Err(Error::AlreadyClaimed);
        }
        let owner_commitment = match self.tickets.get(&invoice_hash) {
            Some(t) => t.owner_commitment,
            None => return Err(Error::NotAWinner),
        };
        let vk = match &self.ownership_vk {
            Some(vk) => vk,
            None => return Err(Error::InvalidVk),
        };
        let verdict = lottery_ownership::verify(
            proof.as_slice(),
            vk.as_slice(),
            &invoice_hash,
            &owner_commitment,
            draw_id,
            &beneficiary,
            &nullifier,
            &viewing_key_commitment,
        );
        let ok = match verdict {
            Ok(b) => b,
            Err(_) => false,
        };
        proof {
            let ghost s0 = choose|s: Seq<Fr>|
                ownership_inputs_ok(invoice_hash, owner_commitment, draw_id, beneficiary@, nullifier, viewing_key_commitment, s)
                    && verdict == groth16_bytes_verdict(proof@, vk@, s);
            if !ok {
                assert forall|s: Seq<Fr>| #[trigger] ownership_inputs_ok(invoice_hash, owner_commitment, draw_id, beneficiary@, nullifier, viewing_key_commitment, s)
                    implies groth16_bytes_verdict(proof@, vk@, s) != Ok::<bool, VerifyError>(true) by {
                    lemma_ownership_inputs_unique(invoice_hash, owner_commitment, draw_id, beneficiary@, nullifier, viewing_key_commitment, s, s0);
                }
            }
        }
        if !ok {
            return Err(Error::InvalidProof);
        }
        let t = match tiers_rec {
            Some(t) => t,
            None => return Err(Error::WrongPhase),
        };
        let prize = self.params.prize_currency;
        let pool = match self.prize_pool.get(&draw_id) {
            Some(p) => *p,
            None => return Err(Error::InsufficientPool),
        };
        let amount = per_winner(pool.minor_units, &t);
        if !bytes_eq(&pool.currency, &prize) {
            return Err(Error::CurrencyMismatch);
        }
        if pool.minor_units < amount {
            return Err(Error::InsufficientPool);
        }
        let payout = FiatAmount { currency: prize, minor_units: amount };
        let key = receipt_key(&invoice_hash, &nullifier);
        let paid = treasury.credit_fiat(&beneficiary, key, payout);
        proof {
            assert(key@ == receipt_key_of(invoice_hash, nullifier));
        }
        match paid {
            Ok(()) => {},
            Err(e) => return Err(e),
        }
        self.prize_pool.insert(draw_id, FiatAmount { currency: pool.currency, minor_units: pool.minor_units - amount });
        self.claim_nullifiers.insert(nullifier, ());
        self.claim_audit.insert(key, viewing_key_commitment);
        self.events.push(Event::PrizeClaimed { receipt_key: key, draw: draw_id, tier, amount: payout });
        proof {
            assert(self.claim_nulls() =~= old(self).claim_nulls().insert(nullifier));
        }
        Ok(())
    }

    /// Fold a fallback seed into draw `d`'s accumulator for every committer
    /// who never revealed, mark them revealed and slash their bond; the
    /// total slashed is returned.
    fn fold_fallbacks_and_slash<C: ReservableCurrency>(&mut self, d: DrawId, currency: &mut C) -> (total: Balance)
        requires
            old(self).wf(),
        ensures
            ({
                let pending = pending_of(old(self).commit_keys(), old(self).commit_map(), d);
                let deposit = old(self).parameters().commit_deposit;
                &&& total == sat_times(deposit, pending.len())
                &&& xor_view(final(self).xors(), d) == fold_fallbacks(xor_view(old(self).xors(), d), pending, d)
                &&& pending.len() == 0 ==> final(self).xors() == old(self).xors()
                &&& pending.len() > 0 ==> final(self).xors() == old(self).xors().insert(d, final(self).xors()[d])
                &&& final(self).commit_map() == marked_revealed(old(self).commit_map(), d)
                &&& final(self).log() == old(self).log() + slash_events(d, pending, deposit)
                &&& final(currency).bond_ops() == old(currency).bond_ops() + slash_ops(pending, deposit)
            }),
            (Pallet { revealed_xor: old(self).revealed_xor, commits: old(self).commits, events: old(self).events, ..*final(self) }) == *old(self),
            final(self).wf(),
    {
        let deposit = self.params.commit_deposit;
        let n = self.commits.size();
        let ghost keys = self.commits.key_seq();
        let ghost cm0 = self.commits@;
        let ghost ev0 = self.events@;
        let ghost x0 = self.revealed_xor@;
        let ghost s0 = *self;
        let ghost ops0 = currency.bond_ops();
        let mut acc: Hash32 = match self.revealed_xor.get(&d) {
            Some(x) => *x,
            None => zero_hash(),
        };
        let mut any = false;
        let mut total: Balance = 0;
        let mut i: usize = 0;
        assert(keys.take(0) =~= Seq::<(DrawId, AccountId)>::empty());
        assert(slash_events(d, Seq::<AccountId>::empty(), deposit) =~= Seq::<Event>::empty());
        assert(ev0 + Seq::<Event>::empty() =~= ev0);
        assert(slash_ops(Seq::<AccountId>::empty(), deposit) =~= Seq::<BondOp>::empty());
        assert(ops0 + Seq::<BondOp>::empty() =~= ops0);
        while i < n
            invariant
                n == keys.len(),
                i <= n,
                deposit == s0.params.commit_deposit,
                self.commits.key_seq() == keys,
                self.commits.seqs_describe(),
                cm0 == s0.commits@,
                keys == s0.commits.key_seq(),
                s0.commits.seqs_describe(),
                forall|k: (DrawId, AccountId)| #[trigger] self.commits@.contains_key(k) == cm0.contains_key(k),
                forall|j: int| 0 <= j < i ==> #[trigger] self.commits@[keys[j]] == marked_revealed(cm0, d)[keys[j]],
                forall|j: int| i <= j < n ==> #[trigger] self.commits@[keys[j]] == cm0[keys[j]],
                acc@ == fold_fallbacks(xor_view(x0, d), pending_of(keys.take(i as int), cm0, d), d),
                any == (pending_of(keys.take(i as int), cm0, d).len() > 0),
                total == sat_times(deposit, pending_of(keys.take(i as int), cm0, d).len()),
                self.events@ == ev0 + slash_events(d, pending_of(keys.take(i as int), cm0, d), deposit),
                currency.bond_ops() == ops0 + slash_ops(pending_of(keys.take(i as int), cm0, d), deposit),
                ev0 == s0.events@,
                x0 == s0.revealed_xor@,
                (Pallet { commits: s0.commits, events: s0.events, ..*self }) == s0,
            decreases n - i,
        {
            let ghost before = pending_of(keys.take(i as int), cm0, d);
            assert(keys.take(i as int + 1).drop_last() =~= keys.take(i as int));
            assert(keys.take(i as int + 1).last() == keys[i as int]);
            let key = *self.commits.key_at(i);
            let c = *self.commits.value_at(i);
            assert(cm0.contains_key(keys[i as int]));
            if key.0 == d && !c.revealed {
                let who = key.1;
                let fb = fallback_seed(d, &who);
                xor_into(&mut acc, &fb);
                any = true;
                currency.slash_reserved(&who, deposit);
                total = total.saturating_add(deposit);
                self.commits.insert(key, Commit { commitment: c.commitment, revealed: true });
                self.events.push(Event::SeedSlashed { draw: d, who, amount: deposit });
                proof {
                    let after = before.push(who);
                    assert(pending_of(keys.take(i as int + 1), cm0, d) == after);
                    assert(slash_events(d, after, deposit) =~= slash_events(d, before, deposit).push(
                        Event::SeedSlashed { draw: d, who, amount: deposit },
                    ));
                    assert(ev0 + slash_events(d, after, deposit) =~= (ev0 + slash_events(d, before, deposit)).push(
                        Event::SeedSlashed { draw: d, who, amount: deposit },
                    ));
                    assert(ops0 + slash_ops(after, deposit) =~= (ops0 + slash_ops(before, deposit)).push(
                        BondOp::Slash(who, deposit),
                    ));
                    assert(after.drop_last() =~= before);
                    assert forall|j: int| 0 <= j < i + 1 implies #[trigger] self.commits@[keys[j]] == marked_revealed(cm0, d)[keys[j]] by {
                        if j < i {
                            assert(keys[j] != keys[i as int]);
                        }
                    }
                    assert forall|j: int| i + 1 <= j < n implies #[trigger] self.commits@[keys[j]] == cm0[keys[j]] by {
                        assert(keys[j] != keys[i as int]);
                    }
                }
            } else {
                proof {
                    assert(pending_of(keys.take(i as int + 1), cm0, d) == before);
                    if key.0 == d {
                        assert(c == cm0[keys[i as int]]);
                        assert(marked_revealed(cm0, d)[keys[i as int]] == c);
                    }
                }
            }
            i = i + 1;
        }
        assert(keys.take(n as int) =~= keys);
        if any {
            self.revealed_xor.insert(d, acc);
        }
        proof {
            assert(self.commits@ =~= marked_revealed(cm0, d)) by {
                assert forall|k: (DrawId, AccountId)| #[trigger] self.commits@.contains_key(k) implies self.commits@[k]
                    == marked_revealed(cm0, d)[k] by {
                    assert(keys.contains(k));
                    let j = keys.index_of(k);
                    assert(keys[j] == k);
                }
            }
            if !any {
                assert(self.revealed_xor@ == x0);
            } else {
                assert(self.revealed_xor@ =~= x0.insert(d, acc));
            }
        }
        total
    }

    /// Select every tier's winners for draw `d` from its entries with
    /// entropy `e`; nothing is recorded when the draw has no entries.
    fn select_winners(&mut self, d: DrawId, tiers: &Vec<PrizeTier>, e: &Hash32)
        requires
            old(self).wf(),
        ensures
            ({
                let entries = entries_of(old(self).entry_map(), d);
                final(self).winner_map() == if entries.len() == 0 {
                    old(self).winner_map()
                } else {
                    winners_after(old(self).winner_map(), *e, d, tiers@, entries)
                }
            }),
            (Pallet { winners: old(self).winners, ..*final(self) }) == *old(self),
            final(self).wf(),
    {
        proof {
            use_wf_entries(*self, d);
        }
        let entries: Vec<Hash32> = match self.draw_entries.get(&d) {
            Some(v) => copy_vec(v.as_slice()),
            None => Vec::new(),
        };
        if entries.len() == 0 {
            return;
        }
        let ghost s0 = *self;
        let mut k: usize = 0;
        assert(tiers@.take(0) =~= Seq::<PrizeTier>::empty());
        while k < tiers.len()
            invariant
                k <= tiers@.len(),
                entries@ == entries_of(s0.entry_map(), d),
                entries@.len() > 0,
                entries@.len() <= MAX_ENTRIES,
                self.winner_map() == winners_after(s0.winner_map(), *e, d, tiers@.take(k as int), entries@),
                (Pallet { winners: s0.winners, ..*self }) == s0,
            decreases tiers@.len() - k,
        {
            let t = tiers[k];
            assert(tiers@.take(k as int + 1).drop_last() =~= tiers@.take(k as int));
            assert(tiers@.take(k as int + 1).last() == t);
            let chosen = select_tier_winners(&entries, e, d, &t);
            if chosen.len() > 0 {
                let ghost cv = chosen@;
                let ghost w0 = self.winner_map();
                self.winners.insert((d, t.tier_id), chosen);
                assert(self.winner_map() =~= w0.insert((d, t.tier_id), cv));
            }
            k = k + 1;
        }
        assert(tiers@.take(tiers@.len() as int) =~= tiers@);
    }

    /// Finalize a draw (signed origin, anyone): after its finalize block,
    /// once the entry set is sealed and enough seeds are revealed, while the
    /// finalize block's hash (`finalize_block_hash`, read from the chain) is
    /// still kept. Non-revealers are folded in and slashed, the entropy is
    /// derived and the winners selected.
    pub fn finalize_draw<C: ReservableCurrency>(
        &mut self,
        origin: Origin,
        draw_id: DrawId,
        finalize_block_hash: Hash32,
        currency: &mut C,
    ) -> (r: Result<(), Error>)
        requires
            old(self).wf(),
        ensures
            final(self).wf(),
            r == finalize_result(*old(self), origin, draw_id),
            r is Err ==> *final(self) == *old(self) && *final(currency) == *old(currency),
            r is Ok ==> finalize_effect(*old(self), *final(self), draw_id, finalize_block_hash),
            r is Ok ==> final(currency).bond_ops() == old(currency).bond_ops() + slash_ops(
                pending_of(old(self).commit_keys(), old(self).commit_map(), draw_id),
                old(self).parameters().commit_deposit,
            ),
    {
        match origin {
            Origin::Signed(_) => {},
            _ => return Err(Error::BadOrigin),
        }
        let rec = match self.draws.get(&draw_id) {
            Some(rec) => rec.copy(),
            None => return Err(Error::UnknownDraw),
        };
        match rec.state {
            DrawState::Drawing => {},
            _ => return Err(Error::WrongPhase),
        }
        let now = self.now;
        if now <= rec.config.finalize_block {
            return Err(Error::TooEarlyToFinalize);
        }
        if !self.entry_root.contains_key(&draw_id) {
            return Err(Error::EntrySetNotSealed);
        }
        let reveals: u32 = match self.reveal_count.get(&draw_id) {
            Some(n) => *n,
            None => 0,
        };
        if reveals < self.params.min_reveals {
            return Err(Error::InsufficientReveals);
        }
        if now > rec.config.finalize_block.saturating_add(self.params.block_hash_count) {
            return Err(Error::EntropyExpired);
        }
        let ghost s0 = *self;
        let mut updated = rec.copy();
        updated.state = DrawState::Drawn;
        let ghost uv = updated@;
        self.draws.insert(draw_id, updated);
        assert(self.draw_map() =~= s0.draw_map().insert(draw_id, uv));
        let ghost s1 = *self;
        let slashed = self.fold_fallbacks_and_slash(draw_id, currency);
        let ghost s2 = *self;
        self.total_slashed = self.total_slashed.saturating_add(slashed);
        let xored = match self.revealed_xor.get(&draw_id) {
            Some(x) => *x,
            None => zero_hash(),
        };
        let e = compute_entropy(&xored, &finalize_block_hash, draw_id);
        self.entropy.insert(draw_id, e);
        let ghost s3 = *self;
        self.select_winners(draw_id, &rec.config.tiers, &e);
        self.events.push(Event::DrawCompleted { draw: draw_id, entropy: e });
        proof {
            assert(s1.commit_keys() == s0.commit_keys());
            assert(s1.commit_map() == s0.commit_map());
            assert(s1.xors() == s0.xors());
            assert(s1.log() == s0.log());
            assert(xored@ == xor_view(s2.xors(), draw_id));
            assert(self.log() =~= (s0.log() + slash_events(draw_id, pending_of(s0.commit_keys(), s0.commit_map(), draw_id), s0.params.commit_deposit)).push(Event::DrawCompleted { draw: draw_id, entropy: e }));
            assert(self.xors() == s2.xors());
            let pending = pending_of(s0.commit_keys(), s0.commit_map(), draw_id);
            if pending.len() == 0 {
                assert(self.xors() == s0.xors());
            } else {
                assert(self.xors() == s0.xors().insert(draw_id, xored));
            }
            assert(self.entropies() == s0.entropies().insert(draw_id, e));
            assert(entries_of(s3.entry_map(), draw_id) == entries_of(s0.entry_map(), draw_id));
            assert(s3.winner_map() == s0.winner_map());
            assert(rec.config.tiers@ == s0.draw_map()[draw_id].config.tiers);
        }
        Ok(())
    }

    /// The draw that currently collects tickets.
    pub fn current_draw(&self) -> (r: DrawId)
        ensures
            r == self.current(),
    {
        self.current_draw
    }

    /// The number the next opened draw gets.
    pub fn next_draw_id(&self) -> (r: DrawId)
        ensures
            r == self.next_draw(),
    {
        self.next_draw_id
    }

    /// The configuration in force for the next draw.
    pub fn active_config(&self) -> (r: Option<DrawConfig>)
        ensures
            match r {
                Some(c) => self.config() == Some(c@),
                None => self.config() is None,
            },
    {
        match &self.active_config {
            Some(c) => Some(c.copy()),
            None => None,
        }
    }

    /// The record of a draw.
    pub fn draw(&self, draw_id: DrawId) -> (r: Option<DrawRecord>)
        ensures
            match r {
                Some(rec) => self.draw_map().contains_key(draw_id) && rec@ == self.draw_map()[draw_id],
                None => !self.draw_map().contains_key(draw_id),
            },
    {
        match self.draws.get(&draw_id) {
            Some(rec) => Some(rec.copy()),
            None => None,
        }
    }

    /// Whether the lottery is paused.
    pub fn paused(&self) -> (r: bool)
        ensures
            r == self.is_paused(),
    {
        self.paused
    }

    /// The merchant set root, if set.
    pub fn merchant_set_root(&self) -> (r: Option<Hash32>)
        ensures
            r == self.root(),
    {
        self.merchant_set_root
    }

    /// A registered ticket.
    pub fn ticket(&self, invoice_hash: &Hash32) -> (r: Option<LotteryTicket>)
        ensures
            match r {
                Some(t) => self.ticket_map().contains_key(*invoice_hash) && t == self.ticket_map()[*invoice_hash],
                None => !self.ticket_map().contains_key(*invoice_hash),
            },
    {
        match self.tickets.get(invoice_hash) {
            Some(t) => Some(*t),
            None => None,
        }
    }

    /// The number of tickets registered for a draw.
    pub fn ticket_count(&self, draw_id: DrawId) -> (r: u32)
        ensures
            r == count_of(self.ticket_counts(), draw_id, 0u32),
    {
        match self.draw_ticket_count.get(&draw_id) {
            Some(n) => *n,
            None => 0,
        }
    }

    /// The entries of a draw, in their stored order.
    pub fn draw_entries(&self, draw_id: DrawId) -> (r: Vec<Hash32>)
        ensures
            r@ == entries_of(self.entry_map(), draw_id),
    {
        match self.draw_entries.get(&draw_id) {
            Some(v) => copy_vec(v.as_slice()),
            None => Vec::new(),
        }
    }

    /// Whether an entry nullifier has been spent.
    pub fn is_entry_nullifier_used(&self, nullifier: &Nullifier) -> (r: bool)
        ensures
            r == self.entry_nulls().contains(*nullifier),
    {
        self.entry_nullifiers.contains_key(nullifier)
    }

    /// Whether a claim nullifier has been spent.
    pub fn is_claim_nullifier_used(&self, nullifier: &Nullifier) -> (r: bool)
        ensures
            r == self.claim_nulls().contains(*nullifier),
    {
        self.claim_nullifiers.contains_key(nullifier)
    }

    /// The sealed entry root of a draw.
    pub fn entry_root(&self, draw_id: DrawId) -> (r: Option<Hash32>)
        ensures
            match r {
                Some(h) => self.roots().contains_key(draw_id) && h == self.roots()[draw_id],
                None => !self.roots().contains_key(draw_id),
            },
    {
        match self.entry_root.get(&draw_id) {
            Some(h) => Some(*h),
            None => None,
        }
    }

    /// The sealed entry count of a draw.
    pub fn entry_count(&self, draw_id: DrawId) -> (r: u64)
        ensures
            r == count_of(self.counts(), draw_id, 0u64),
    {
        match self.entry_count.get(&draw_id) {
            Some(n) => *n,
            None => 0,
        }
    }

    /// The commitment of an account to a draw's entropy.
    pub fn commit_of(&self, draw_id: DrawId, who: &AccountId) -> (r: Option<Commit>)
        ensures
            match r {
                Some(c) => self.commit_map().contains_key((draw_id, *who)) && c == self.commit_map()[(draw_id, *who)],
                None => !self.commit_map().contains_key((draw_id, *who)),
            },
    {
        match self.commits.get(&(draw_id, *who)) {
            Some(c) => Some(*c),
            None => None,
        }
    }

    /// The XOR of the seeds revealed for a draw (zero when none).
    pub fn revealed_xor(&self, draw_id: DrawId) -> (r: Hash32)
        ensures
            r@ == xor_view(self.xors(), draw_id),
    {
        match self.revealed_xor.get(&draw_id) {
            Some(x) => *x,
            None => zero_hash(),
        }
    }

    /// The number of valid reveals for a draw.
    pub fn reveal_count(&self, draw_id: DrawId) -> (r: u32)
        ensures
            r == count_of(self.reveals(), draw_id, 0u32),
    {
        match self.reveal_count.get(&draw_id) {
            Some(n) => *n,
            None => 0,
        }
    }

    /// The published entropy of a draw.
    pub fn entropy(&self, draw_id: DrawId) -> (r: Option<Hash32>)
        ensures
            match r {
                Some(h) => self.entropies().contains_key(draw_id) && h == self.entropies()[draw_id],
                None => !self.entropies().contains_key(draw_id),
            },
    {
        match self.entropy.get(&draw_id) {
            Some(h) => Some(*h),
            None => None,
        }
    }

    /// The winners of a tier of a draw (none when nothing was recorded).
    pub fn winners(&self, draw_id: DrawId, tier: u8) -> (r: Vec<Hash32>)
        ensures
            r@ == if self.winner_map().contains_key((draw_id, tier)) {
                self.winner_map()[(draw_id, tier)]
            } else {
                Seq::<Hash32>::empty()
            },
    {
        match self.winners.get(&(draw_id, tier)) {
            Some(v) => copy_vec(v.as_slice()),
            None => Vec::new(),
        }
    }

    /// The authenticated tax revenue noted for a draw's period.
    pub fn period_tax_revenue(&self, draw_id: DrawId) -> (r: Option<FiatAmount>)
        ensures
            match r {
                Some(a) => self.revenue().contains_key(draw_id) && a == self.revenue()[draw_id],
                None => !self.revenue().contains_key(draw_id),
            },
    {
        match self.period_tax_revenue.get(&draw_id) {
            Some(a) => Some(*a),
            None => None,
        }
    }

    /// The funded prize pool of a draw.
    pub fn prize_pool(&self, draw_id: DrawId) -> (r: Option<FiatAmount>)
        ensures
            match r {
                Some(a) => self.pools().contains_key(draw_id) && a == self.pools()[draw_id],
                None => !self.pools().contains_key(draw_id),
            },
    {
        match self.prize_pool.get(&draw_id) {
            Some(a) => Some(*a),
            None => None,
        }
    }

    /// The viewing-key commitment recorded under a receipt key.
    pub fn claim_audit(&self, receipt_key: &Hash32) -> (r: Option<Commitment>)
        ensures
            match r {
                Some(c) => self.audit().contains_key(*receipt_key) && c == self.audit()[*receipt_key],
                None => !self.audit().contains_key(*receipt_key),
            },
    {
        match self.claim_audit.get(receipt_key) {
            Some(c) => Some(*c),
            None => None,
        }
    }

    /// The eligibility verifying key, if set.
    pub fn eligibility_vk(&self) -> (r: Option<Vec<u8>>)
        ensures
            match r {
                Some(v) => self.elig_vk() == Some(v@),
                None => self.elig_vk() is None,
            },
    {
        match &self.eligibility_vk {
            Some(v) => Some(copy_vec(v.as_slice())),
            None => None,
        }
    }

    /// The ownership verifying key, if set.
    pub fn ownership_vk(&self) -> (r: Option<Vec<u8>>)
        ensures
            match r {
                Some(v) => self.own_vk() == Some(v@),
                None => self.own_vk() is None,
            },
    {
        match &self.ownership_vk {
            Some(v) => Some(copy_vec(v.as_slice())),
            None => None,
        }
    }

    /// The total of commit bonds slashed.
    pub fn total_slashed(&self) -> (r: Balance)
        ensures
            r == self.slashed(),
    {
        self.total_slashed
    }

    /// The events emitted so far.
    pub fn events(&self) -> (r: &Vec<Event>)
        ensures
            r@ == self.log(),
    {
        &self.events
    }

    /// The current block.
    pub fn block_number(&self) -> (r: BlockNumber)
        ensures
            r == self.clock(),
    {
        self.now
    }
}

} // verus!
