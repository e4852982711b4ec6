//! Cross-border interoperability: the trust registry of foreign issuers, the
//! GRANDPA light clients of bridged chains, clearing instructions released by
//! verified finality and netted into positions, cross-border verification of
//! zero-knowledge proofs with nullifier anti-replay, tax treaties, foreign
//! e-invoice recognition, One-Stop-Shop VAT, and interop validator bonds.
use vstd::prelude::*;
use crate::grandpa::{finality_outcome, verify_finality_proof, GrandpaVerifyError};
use crate::identity;
use crate::origin::{admits, ensure_signed, is_root, signer_of, Origin};
use crate::primitives::{
    AccountId, AgeProofPublicInputs, Balance, BlockNumber, ClearingInstruction, Commitment,
    CountryId, Did, DidResolution, DidView, GrandpaAuthoritySet, Hash32, Nullifier,
    OssRegistration, TaxTreaty, TrustRegistryEntry, XcmStatus, XsuAmount, MIN_VALIDATOR_BOND,
};
use crate::scale::{decode_finality_proof, finality_proof_bytes, proof_in_bounds, starts_with, FinalityProofView};
use crate::table::Table;
use crate::zk::age_proof::{self, age_inputs_ok};
use crate::zk::{groth16_bytes_verdict, Fr};

verus! {

/// Largest finality proof a relayer may submit, in bytes.
pub const MAX_FINALITY_PROOF_LEN: u32 = 65_536;

/// Events of the interop module.
#[derive(Clone, Copy, Debug, PartialEq, Eq)]
pub enum Event {
    IssuerRegistered { country: CountryId, issuer_key_hash: Hash32 },
    AuthoritySetInitialized { country: CountryId, set_id: u64 },
    AuthoritySetRotated { country: CountryId, set_id: u64 },
    InstructionSubmitted { id: u64, from: CountryId, to: CountryId, amount: XsuAmount },
    FinalityVerified { id: u64 },
    HeadFinalized { country: CountryId, number: BlockNumber },
    IssuerVkRegistered { country: CountryId, issuer_key_hash: Hash32 },
    ForeignProofVerified { country: CountryId, nullifier: Nullifier },
    TreatyRegistered { a: CountryId, b: CountryId },
    ForeignInvoiceRecognized { country: CountryId, invoice_hash: Hash32 },
    OssRegistered { home: CountryId },
    OssReported { from: CountryId, to: CountryId, amount: XsuAmount },
    Netted { window: u32, instructions: u32 },
    NetPositionUpdated { from: CountryId, to: CountryId, amount: XsuAmount },
    ValidatorRegistered { who: AccountId, bond: Balance },
    ValidatorSlashed { who: AccountId, amount: Balance },
}

/// Errors of the interop module.
#[derive(Clone, Copy, Debug, PartialEq, Eq)]
pub enum Error {
    /// The origin is not allowed to make the call.
    BadOrigin,
    UnknownInstruction,
    InvalidStatus,
    InvalidFinalityProof,
    MalformedFinalityProof,
    AuthoritySetNotInitialized,
    SetIdMismatch,
    UnknownAuthority,
    DuplicateAuthority,
    BadFinalityProof,
    NonSequentialSetId,
    StaleFinality,
    IssuerNotRecognized,
    VerifyingKeyNotFound,
    MalformedZkProof,
    InvalidZkProof,
    ProofReplayed,
    NoFinalizedHead,
    AlreadyRegisteredOss,
    OssNotRegistered,
    UnknownValidator,
    InsufficientBond,
    SlashExceedsBond,
    AlreadyRegistered,
}

/// How a light-client failure is reported.
pub open spec fn grandpa_error(e: GrandpaVerifyError) -> Error {
    match e {
        GrandpaVerifyError::SetIdMismatch => Error::SetIdMismatch,
        GrandpaVerifyError::UnknownAuthority => Error::UnknownAuthority,
        GrandpaVerifyError::DuplicateAuthority => Error::DuplicateAuthority,
        GrandpaVerifyError::BadSignature => Error::BadFinalityProof,
        GrandpaVerifyError::NotEnoughWeight => Error::BadFinalityProof,
        GrandpaVerifyError::MalformedKey => Error::MalformedFinalityProof,
    }
}

/// The finality proof the bytes start with, if any.
pub open spec fn decoded_proof(b: Seq<u8>) -> Option<FinalityProofView> {
    if exists|v: FinalityProofView| proof_in_bounds(v) && starts_with(b, #[trigger] finality_proof_bytes(v)) {
        Some(choose|v: FinalityProofView| proof_in_bounds(v) && starts_with(b, #[trigger] finality_proof_bytes(v)))
    } else {
        None
    }
}

/// An ASCII letter in upper case; other bytes as they are.
pub open spec fn upper(b: u8) -> u8 {
    if 97 <= b <= 122 {
        (b - 32) as u8
    } else {
        b
    }
}

/// `u8::to_ascii_uppercase`.
pub fn ascii_upper(b: u8) -> (r: u8)
    ensures
        r == upper(b),
{
    if 97 <= b && b <= 122 {
        b - 32
    } else {
        b
    }
}

/// The country code a chain tag names: its first two bytes in upper case,
/// zero for a missing byte.
pub open spec fn tag_country(tag: Seq<u8>) -> CountryId {
    [
        if tag.len() > 0 { upper(tag[0]) } else { 0u8 },
        if tag.len() > 1 { upper(tag[1]) } else { 0u8 },
    ]
}

/// The country code a chain tag names.
pub fn tag_to_country(tag: &[u8]) -> (r: CountryId)
    ensures
        r == tag_country(tag@),
{
    let a: u8 = if tag.len() > 0 { ascii_upper(tag[0]) } else { 0 };
    let b: u8 = if tag.len() > 1 { ascii_upper(tag[1]) } else { 0 };
    [a, b]
}

/// `x + y` saturating at `u128::MAX`.
pub open spec fn sat_add_u128(x: int, y: int) -> int {
    if x + y > u128::MAX {
        u128::MAX as int
    } else {
        x + y
    }
}

/// The net position recorded for a corridor, zero when none is.
pub open spec fn position_of(pos: Map<(CountryId, CountryId), XsuAmount>, k: (CountryId, CountryId)) -> u128 {
    if pos.contains_key(k) {
        pos[k].0
    } else {
        0
    }
}

/// Netting one instruction: a finality-verified instruction adds its amount
/// to its corridor, saturating.
pub open spec fn settle_step(pos: Map<(CountryId, CountryId), XsuAmount>, i: ClearingInstruction) -> Map<
    (CountryId, CountryId),
    XsuAmount,
> {
    if i.status == XcmStatus::FinalityVerified {
        let k = (i.from, i.to);
        pos.insert(k, XsuAmount(sat_add_u128(position_of(pos, k) as int, i.amount.0 as int) as u128))
    } else {
        pos
    }
}

/// Netting the instructions in order.
pub open spec fn settle_all(
    instrs: Seq<ClearingInstruction>,
    pos: Map<(CountryId, CountryId), XsuAmount>,
) -> Map<(CountryId, CountryId), XsuAmount>
    decreases instrs.len(),
{
    if instrs.len() == 0 {
        pos
    } else {
        settle_step(settle_all(instrs.drop_last(), pos), instrs.last())
    }
}

/// The events netting the instructions in order announces: each
/// finality-verified instruction's corridor with its new position.
pub open spec fn netting_events(
    instrs: Seq<ClearingInstruction>,
    pos: Map<(CountryId, CountryId), XsuAmount>,
) -> Seq<Event>
    decreases instrs.len(),
{
    if instrs.len() == 0 {
        Seq::empty()
    } else {
        let prev = netting_events(instrs.drop_last(), pos);
        let i = instrs.last();
        if i.status == XcmStatus::FinalityVerified {
            let k = (i.from, i.to);
            prev.push(Event::NetPositionUpdated { from: i.from, to: i.to, amount: settle_all(instrs, pos)[k] })
        } else {
            prev
        }
    }
}

/// How many instructions are finality-verified, saturating at `u32::MAX`.
pub open spec fn verified_count(instrs: Seq<ClearingInstruction>) -> int
    decreases instrs.len(),
{
    if instrs.len() == 0 {
        0
    } else {
        let prev = verified_count(instrs.drop_last());
        if instrs.last().status == XcmStatus::FinalityVerified {
            if prev + 1 > u32::MAX {
                u32::MAX as int
            } else {
                prev + 1
            }
        } else {
            prev
        }
    }
}

/// The instruction after netting: verified ones become accepted.
pub open spec fn accepted(i: ClearingInstruction) -> ClearingInstruction {
    if i.status == XcmStatus::FinalityVerified {
        ClearingInstruction { status: XcmStatus::Accepted, ..i }
    } else {
        i
    }
}

/// Netting is done once: after a netting pass no instruction is
/// finality-verified, so netting the accepted instructions again leaves every
/// position as it is, announces no position and counts none.
pub proof fn lemma_netting_once(instrs: Seq<ClearingInstruction>, pos: Map<(CountryId, CountryId), XsuAmount>)
    ensures
        settle_all(instrs.map_values(|i: ClearingInstruction| accepted(i)), pos) == pos,
        verified_count(instrs.map_values(|i: ClearingInstruction| accepted(i))) == 0,
        netting_events(instrs.map_values(|i: ClearingInstruction| accepted(i)), pos) == Seq::<Event>::empty(),
    decreases instrs.len(),
{
    let acc = instrs.map_values(|i: ClearingInstruction| accepted(i));
    if instrs.len() > 0 {
        lemma_netting_once(instrs.drop_last(), pos);
        assert(acc.drop_last() =~= instrs.drop_last().map_values(|i: ClearingInstruction| accepted(i)));
        assert(acc.last() == accepted(instrs.last()));
    }
}

/// The interop module's state.
pub struct Pallet {
    local_tag: Vec<u8>,
    trust_registry: Table<(CountryId, Hash32), TrustRegistryEntry>,
    authority_sets: Table<CountryId, GrandpaAuthoritySet>,
    finalized_heads: Table<CountryId, (Hash32, BlockNumber)>,
    foreign_vks: Table<(CountryId, Hash32), Vec<u8>>,
    used_nullifiers: Table<Nullifier, ()>,
    treaties: Table<(CountryId, CountryId), TaxTreaty>,
    recognized_invoices: Table<(CountryId, Hash32), bool>,
    oss_registrations: Table<Did, OssRegistration>,
    instructions: Table<u64, ClearingInstruction>,
    net_positions: Table<(CountryId, CountryId), XsuAmount>,
    next_instruction: u64,
    validators: Table<AccountId, Balance>,
    total_slashed: Balance,
    events: Vec<Event>,
}

impl Pallet {
    /// Whether each registered issuer is active, by country and key hash.
    pub closed spec fn trust(self) -> Map<(CountryId, Hash32), bool> {
        self.trust_registry@.map_values(|e: TrustRegistryEntry| e.active)
    }

    /// The recognized authority set of each bridged chain.
    pub closed spec fn sets(self) -> Map<CountryId, GrandpaAuthoritySet> {
        self.authority_sets@
    }

    /// The last finalized head of each bridged chain.
    pub closed spec fn heads(self) -> Map<CountryId, (Hash32, BlockNumber)> {
        self.finalized_heads@
    }

    /// Registered verifying keys of foreign issuers.
    pub closed spec fn vks(self) -> Map<(CountryId, Hash32), Seq<u8>> {
        self.foreign_vks@.map_values(|v: Vec<u8>| v@)
    }

    /// Nullifiers already spent.
    pub closed spec fn spent(self) -> Set<Nullifier> {
        self.used_nullifiers@.dom()
    }

    /// Registered treaties, by ordered pair.
    pub closed spec fn treaty_map(self) -> Map<(CountryId, CountryId), TaxTreaty> {
        self.treaties@
    }

    /// Recognized foreign invoices.
    pub closed spec fn invoices(self) -> Map<(CountryId, Hash32), bool> {
        self.recognized_invoices@
    }

    /// OSS registrations by subject.
    pub closed spec fn oss(self) -> Map<DidView, OssRegistration> {
        self.oss_registrations@
    }

    /// Clearing instructions by id.
    pub closed spec fn instrs(self) -> Map<u64, ClearingInstruction> {
        self.instructions@
    }

    /// The instructions in ledger order.
    pub closed spec fn instr_order(self) -> Seq<ClearingInstruction> {
        self.instructions.value_seq()
    }

    /// Net positions by corridor.
    pub closed spec fn positions(self) -> Map<(CountryId, CountryId), XsuAmount> {
        self.net_positions@
    }

    /// The id the next instruction gets.
    pub closed spec fn next_id(self) -> u64 {
        self.next_instruction
    }

    /// Interop validator bonds.
    pub closed spec fn bonds(self) -> Map<AccountId, Balance> {
        self.validators@
    }

    /// Total slashed from validators.
    pub closed spec fn slashed(self) -> Balance {
        self.total_slashed
    }

    /// The local chain tag.
    pub closed spec fn tag(self) -> Seq<u8> {
        self.local_tag@
    }

    /// The events emitted so far.
    pub closed spec fn log(self) -> Seq<Event> {
        self.events@
    }

    /// An empty interop module for the chain tagged `local_tag`.
    pub fn new(local_tag: Vec<u8>) -> (r: Pallet)
        ensures
            r.tag() == local_tag@,
            r.trust() == Map::<(CountryId, Hash32), bool>::empty(),
            r.sets() == Map::<CountryId, GrandpaAuthoritySet>::empty(),
            r.heads() == Map::<CountryId, (Hash32, BlockNumber)>::empty(),
            r.spent() == Set::<Nullifier>::empty(),
            r.instrs() == Map::<u64, ClearingInstruction>::empty(),
            r.positions() == Map::<(CountryId, CountryId), XsuAmount>::empty(),
            r.bonds() == Map::<AccountId, Balance>::empty(),
            r.next_id() == 0,
            r.slashed() == 0,
            r.log() == Seq::<Event>::empty(),
    {
        let r = Pallet {
            local_tag,
            trust_registry: Table::new(),
            authority_sets: Table::new(),
            finalized_heads: Table::new(),
            foreign_vks: Table::new(),
            used_nullifiers: Table::new(),
            treaties: Table::new(),
            recognized_invoices: Table::new(),
            oss_registrations: Table::new(),
            instructions: Table::new(),
            net_positions: Table::new(),
            next_instruction: 0,
            validators: Table::new(),
            total_slashed: 0,
            events: Vec::new(),
        };
        assert(r.trust() =~= Map::<(CountryId, Hash32), bool>::empty());
        assert(r.spent() =~= Set::<Nullifier>::empty());
        r
    }

    /// The events emitted so far.
    pub fn events(&self) -> (r: &Vec<Event>)
        ensures
            r@ == self.log(),
    {
        &self.events
    }

    /// Register (or replace) an issuer of the trust registry (federation origin).
    pub fn register_issuer(&mut self, origin: Origin, entry: TrustRegistryEntry) -> (r: Result<(), Error>)
        ensures
            r is Err <==> origin != Origin::Root,
            r is Err ==> r == Err::<(), Error>(Error::BadOrigin) && *final(self) == *old(self),
            r is Ok ==> final(self).trust() == old(self).trust().insert(
                (entry.country, entry.issuer_key_hash),
                entry.active,
            ) && final(self).log() == old(self).log().push(
                Event::IssuerRegistered { country: entry.country, issuer_key_hash: entry.issuer_key_hash },
            ),
            final(self).sets() == old(self).sets(),
            final(self).instrs() == old(self).instrs(),
            final(self).spent() == old(self).spent(),
    {
        if !is_root(&origin) {
            return Err(Error::BadOrigin);
        }
        let country = entry.country;
        let key = entry.issuer_key_hash;
        let ghost active = entry.active;
        self.trust_registry.insert((country, key), entry);
        proof {
            assert(self.trust() =~= old(self).trust().insert((country, key), active));
        }
        self.events.push(Event::IssuerRegistered { country, issuer_key_hash: key });
        Ok(())
    }

    /// Record a new pending instruction under the next id (the id counter
    /// saturates).
    fn new_instruction(&mut self, from: CountryId, to: CountryId, amount: XsuAmount, detail_commitment: Commitment) -> (id: u64)
        ensures
            id == old(self).next_id(),
            final(self).next_id() == if id == u64::MAX { id } else { (id + 1) as u64 },
            final(self).instrs() == old(self).instrs().insert(
                id,
                ClearingInstruction { from, to, amount, detail_commitment, status: XcmStatus::Pending },
            ),
            final(self).log() == old(self).log().push(Event::InstructionSubmitted { id, from, to, amount }),
            final(self).trust() == old(self).trust(),
            final(self).sets() == old(self).sets(),
            final(self).heads() == old(self).heads(),
            final(self).vks() == old(self).vks(),
            final(self).spent() == old(self).spent(),
            final(self).treaty_map() == old(self).treaty_map(),
            final(self).invoices() == old(self).invoices(),
            final(self).oss() == old(self).oss(),
            final(self).positions() == old(self).positions(),
            final(self).bonds() == old(self).bonds(),
            final(self).slashed() == old(self).slashed(),
            final(self).tag() == old(self).tag(),
    {
        let id = self.next_instruction;
        self.next_instruction = id.saturating_add(1);
        let instr = ClearingInstruction { from, to, amount, detail_commitment, status: XcmStatus::Pending };
        self.instructions.insert(id, instr);
        self.events.push(Event::InstructionSubmitted { id, from, to, amount });
        id
    }

    /// Submit a clearing instruction (relayer origin: any signed account); it
    /// starts pending whatever status it carries.
    pub fn submit_instruction(&mut self, origin: Origin, instr: ClearingInstruction) -> (r: Result<(), Error>)
        ensures
            r is Err <==> !(origin is Signed),
            r is Err ==> r == Err::<(), Error>(Error::BadOrigin) && *final(self) == *old(self),
            r is Ok ==> {
                let id = old(self).next_id();
                &&& final(self).instrs() == old(self).instrs().insert(
                    id,
                    ClearingInstruction { status: XcmStatus::Pending, ..instr },
                )
                &&& final(self).log() == old(self).log().push(
                    Event::InstructionSubmitted { id, from: instr.from, to: instr.to, amount: instr.amount },
                )
            },
            final(self).sets() == old(self).sets(),
            final(self).heads() == old(self).heads(),
            final(self).positions() == old(self).positions(),
            final(self).spent() == old(self).spent(),
    {
        match origin {
            Origin::Signed(_) => {},
            _ => return Err(Error::BadOrigin),
        }
        let _ = self.new_instruction(instr.from, instr.to, instr.amount, instr.detail_commitment);
        Ok(())
    }


    /// Net every finality-verified instruction into its corridor's position,
    /// in ledger order (saturating), and mark it accepted (federation origin).
    pub fn net_and_settle(&mut self, origin: Origin, window: u32) -> (r: Result<(), Error>)
        ensures
            r is Err <==> origin != Origin::Root,
            r is Err ==> r == Err::<(), Error>(Error::BadOrigin) && *final(self) == *old(self),
            r is Ok ==> {
                &&& final(self).positions() == settle_all(old(self).instr_order(), old(self).positions())
                &&& final(self).instr_order() == old(self).instr_order().map_values(|i: ClearingInstruction| accepted(i))
                &&& final(self).instrs().dom() == old(self).instrs().dom()
                &&& forall|id: u64| #[trigger] old(self).instrs().contains_key(id) ==> final(self).instrs()[id]
                    == accepted(old(self).instrs()[id])
                &&& final(self).log() == old(self).log() + netting_events(old(self).instr_order(), old(self).positions()).push(
                    Event::Netted { window, instructions: verified_count(old(self).instr_order()) as u32 },
                )
            },
            final(self).sets() == old(self).sets(),
            final(self).heads() == old(self).heads(),
            final(self).spent() == old(self).spent(),
    {
        if !is_root(&origin) {
            return Err(Error::BadOrigin);
        }
        let n = self.instructions.size();
        let ghost old_vals = self.instructions.value_seq();
        let ghost old_keys = self.instructions.key_seq();
        let ghost old_map = self.instructions@;
        let mut settled: u32 = 0;
        let mut i: usize = 0;
        while i < n
            invariant
                i <= n == old_keys.len() == old_vals.len(),
                self.instructions.key_seq() == old_keys,
                self.instructions.value_seq().len() == n,
                self.instructions.seqs_describe(),
                old_keys.no_duplicates(),
                forall|j: int| 0 <= j < n ==> #[trigger] old_map.contains_key(old_keys[j]) && old_map[old_keys[j]]
                    == old_vals[j],
                forall|j: int| 0 <= j < i ==> #[trigger] self.instructions.value_seq()[j] == accepted(old_vals[j]),
                forall|j: int| i <= j < n ==> #[trigger] self.instructions.value_seq()[j] == old_vals[j],
                self.net_positions@ == settle_all(old_vals.subrange(0, i as int), old(self).net_positions@),
                settled == verified_count(old_vals.subrange(0, i as int)),
                self.events@ == old(self).events@ + netting_events(old_vals.subrange(0, i as int), old(self).net_positions@),
                self.authority_sets == old(self).authority_sets,
                self.finalized_heads == old(self).finalized_heads,
                self.used_nullifiers == old(self).used_nullifiers,
            decreases n - i,
        {
            let id = *self.instructions.key_at(i);
            let instr = *self.instructions.value_at(i);
            proof {
                let s = old_vals.subrange(0, i + 1);
                assert(s.drop_last() =~= old_vals.subrange(0, i as int));
                assert(s.last() == old_vals[i as int]);
            }
            match instr.status {
                XcmStatus::FinalityVerified => {
                    let key = (instr.from, instr.to);
                    let cur = match self.net_positions.get(&key) {
                        Some(a) => a.0,
                        None => 0,
                    };
                    let updated = XsuAmount(cur.saturating_add(instr.amount.0));
                    self.net_positions.insert(key, updated);
                    self.events.push(Event::NetPositionUpdated { from: instr.from, to: instr.to, amount: updated });
                    let ghost before_vals = self.instructions.value_seq();
                    self.instructions.insert(id, ClearingInstruction { status: XcmStatus::Accepted, ..instr });
                    proof {
                        assert(self.instructions.key_seq().index_of(id) == i) by {
                            let k = old_keys.index_of(id);
                            assert(old_keys.contains(id));
                            assert(old_keys[k] == id);
                        }
                    }
                    settled = settled.saturating_add(1);
                },
                _ => {},
            }
            i = i + 1;
        }
        proof {
            assert(old_vals.subrange(0, n as int) =~= old_vals);
            assert(self.instructions.value_seq() =~= old_vals.map_values(|i: ClearingInstruction| accepted(i)));
            assert forall|id: u64| #[trigger] old_map.contains_key(id) implies self.instructions@.contains_key(id)
                && self.instructions@[id] == accepted(old_map[id]) by {
                assert(old_keys.contains(id));
                let j = old_keys.index_of(id);
                assert(old_keys[j] == id);
            }
            assert(self.instructions@.dom() =~= old_map.dom()) by {
                assert forall|k: u64| self.instructions@.contains_key(k) implies old_map.contains_key(k) by {
                    assert(self.instructions.key_seq().contains(k));
                    let j = old_keys.index_of(k);
                    assert(old_keys[j] == k);
                }
            }
        }
        self.events.push(Event::Netted { window, instructions: settled });
        Ok(())
    }

    /// Register as an interop validator with at least the minimum bond.
    pub fn register_validator(&mut self, origin: Origin, bond: Balance) -> (r: Result<(), Error>)
        ensures
            r is Err ==> r == Err::<(), Error>(Error::AlreadyRegistered) || r == Err::<(), Error>(Error::BadOrigin) || r == Err::<(), Error>(Error::InsufficientBond),
            r is Err ==> *final(self) == *old(self),
            (r == Err::<(), Error>(Error::BadOrigin)) == !(origin is Signed),
            signer_of(origin) matches Some(who) ==> {
                &&& (r == Err::<(), Error>(Error::AlreadyRegistered)) == old(self).bonds().contains_key(who)
                &&& (r == Err::<(), Error>(Error::InsufficientBond)) == (!old(self).bonds().contains_key(who)
                    && bond < MIN_VALIDATOR_BOND)
                &&& r is Ok ==> final(self).bonds() == old(self).bonds().insert(who, bond) && final(self).log()
                    == old(self).log().push(Event::ValidatorRegistered { who, bond })
            },
            final(self).slashed() == old(self).slashed(),
    {
        let who = match ensure_signed(&origin) {
            Some(a) => a,
            None => return Err(Error::BadOrigin),
        };
        if self.validators.contains_key(&who) {
            return Err(Error::AlreadyRegistered);
        }
        if bond < MIN_VALIDATOR_BOND {
            return Err(Error::InsufficientBond);
        }
        self.validators.insert(who, bond);
        self.events.push(Event::ValidatorRegistered { who, bond });
        Ok(())
    }

    /// Slash part of a validator's bond (federation origin); the slash may
    /// not exceed the bond, and the total slashed saturates.
    pub fn slash_validator(&mut self, origin: Origin, who: AccountId, amount: Balance) -> (r: Result<(), Error>)
        ensures
            r is Err ==> r == Err::<(), Error>(Error::BadOrigin) || r == Err::<(), Error>(Error::SlashExceedsBond) || r == Err::<(), Error>(Error::UnknownValidator),
            r is Err ==> *final(self) == *old(self),
            (r == Err::<(), Error>(Error::BadOrigin)) == (origin != Origin::Root),
            origin == Origin::Root ==> {
                &&& (r == Err::<(), Error>(Error::UnknownValidator)) == !old(self).bonds().contains_key(who)
                &&& (r == Err::<(), Error>(Error::SlashExceedsBond)) == (old(self).bonds().contains_key(who)
                    && old(self).bonds()[who] < amount)
                &&& r is Ok ==> {
                    &&& final(self).bonds() == old(self).bonds().insert(who, (old(self).bonds()[who] - amount) as Balance)
                    &&& final(self).slashed() == sat_add_u128(old(self).slashed() as int, amount as int)
                    &&& final(self).log() == old(self).log().push(Event::ValidatorSlashed { who, amount })
                }
            },
    {
        if !is_root(&origin) {
            return Err(Error::BadOrigin);
        }
        let bond = match self.validators.get(&who) {
            Some(b) => *b,
            None => return Err(Error::UnknownValidator),
        };
        if bond < amount {
            return Err(Error::SlashExceedsBond);
        }
        self.validators.insert(who, bond - amount);
        self.total_slashed = self.total_slashed.saturating_add(amount);
        self.events.push(Event::ValidatorSlashed { who, amount });
        Ok(())
    }

    /// Record the initial authority set of a bridged chain (federation origin).
    pub fn init_authority_set(&mut self, origin: Origin, country: CountryId, set: GrandpaAuthoritySet) -> (r: Result<(), Error>)
        ensures
            r is Err <==> origin != Origin::Root,
            r is Err ==> r == Err::<(), Error>(Error::BadOrigin) && *final(self) == *old(self),
            r is Ok ==> final(self).sets() == old(self).sets().insert(country, set) && final(self).log()
                == old(self).log().push(Event::AuthoritySetInitialized { country, set_id: set.set_id }),
            final(self).heads() == old(self).heads(),
            final(self).instrs() == old(self).instrs(),
    {
        if !is_root(&origin) {
            return Err(Error::BadOrigin);
        }
        let set_id = set.set_id;
        self.authority_sets.insert(country, set);
        self.events.push(Event::AuthoritySetInitialized { country, set_id });
        Ok(())
    }

    /// Hand a bridged chain over to its next authority set, on a finality
    /// proof of the current set; set ids must follow one another, and the
    /// proof's target becomes the finalized head (federation origin).
    pub fn rotate_authority_set(&mut self, origin: Origin, country: CountryId, finality_proof: Vec<u8>, new_set: GrandpaAuthoritySet) -> (r: Result<(), Error>)
        requires
            finality_proof@.len() <= MAX_FINALITY_PROOF_LEN,
        ensures
            r is Err ==> r == Err::<(), Error>(Error::AuthoritySetNotInitialized) || r == Err::<(), Error>(Error::BadOrigin) || r == Err::<(), Error>(Error::InvalidFinalityProof) || r == Err::<(), Error>(Error::MalformedFinalityProof) || r == Err::<(), Error>(Error::NonSequentialSetId) || r == Err::<(), Error>(Error::SetIdMismatch) || r == Err::<(), Error>(Error::UnknownAuthority) || r == Err::<(), Error>(Error::DuplicateAuthority) || r == Err::<(), Error>(Error::BadFinalityProof),
            r is Err ==> *final(self) == *old(self),
            (r == Err::<(), Error>(Error::BadOrigin)) == (origin != Origin::Root),
            origin == Origin::Root ==> {
                let b = finality_proof@;
                &&& (r == Err::<(), Error>(Error::InvalidFinalityProof)) == (b.len() == 0)
                &&& (b.len() > 0 && decoded_proof(b) is None) ==> r == Err::<(), Error>(Error::MalformedFinalityProof)
                &&& decoded_proof(b) matches Some(p) ==> b.len() > 0 ==> {
                    &&& (r == Err::<(), Error>(Error::AuthoritySetNotInitialized)) == !old(self).sets().contains_key(country)
                    &&& old(self).sets().contains_key(country) ==> {
                        let cur = old(self).sets()[country];
                        let v = finality_outcome(cur, p);
                        &&& v matches Err(e) ==> r == Err::<(), Error>(grandpa_error(e))
                        &&& v is Ok ==> (r == Err::<(), Error>(Error::NonSequentialSetId)) == (new_set.set_id
                            != cur.set_id.saturating_add(1))
                        &&& r is Ok ==> {
                            &&& v is Ok
                            &&& final(self).sets() == old(self).sets().insert(country, new_set)
                            &&& final(self).heads() == old(self).heads().insert(country, (p.target_hash, p.target_number))
                            &&& final(self).log() == old(self).log().push(
                                Event::AuthoritySetRotated { country, set_id: new_set.set_id },
                            )
                        }
                    }
                }
            },
    {
        if !is_root(&origin) {
            return Err(Error::BadOrigin);
        }
        if finality_proof.len() == 0 {
            return Err(Error::InvalidFinalityProof);
        }
        let proof = match decode_finality_proof(finality_proof.as_slice()) {
            Some(p) => p,
            None => return Err(Error::MalformedFinalityProof),
        };
        proof {
            assert(decoded_proof(finality_proof@) == Some(proof@));
        }
        let current = match self.authority_sets.get(&country) {
            Some(s) => s,
            None => return Err(Error::AuthoritySetNotInitialized),
        };
        match Self::map_verify(current, &proof) {
            Ok(()) => {},
            Err(e) => return Err(e),
        }
        if new_set.set_id != current.set_id.saturating_add(1) {
            return Err(Error::NonSequentialSetId);
        }
        let set_id = new_set.set_id;
        self.authority_sets.insert(country, new_set);
        self.finalized_heads.insert(country, (proof.target_hash, proof.target_number));
        self.events.push(Event::AuthoritySetRotated { country, set_id });
        Ok(())
    }

    /// Register the verifying key of a recognized foreign issuer (federation
    /// origin).
    pub fn register_issuer_vk(&mut self, origin: Origin, country: CountryId, issuer_key_hash: Hash32, vk: Vec<u8>) -> (r: Result<(), Error>)
        ensures
            r is Err ==> r == Err::<(), Error>(Error::BadOrigin) || r == Err::<(), Error>(Error::IssuerNotRecognized),
            r is Err ==> *final(self) == *old(self),
            (r == Err::<(), Error>(Error::BadOrigin)) == (origin != Origin::Root),
            origin == Origin::Root ==> {
                let trusted = old(self).trust().contains_key((country, issuer_key_hash)) && old(self).trust()[(
                    country,
                    issuer_key_hash,
                )];
                &&& (r == Err::<(), Error>(Error::IssuerNotRecognized)) == !trusted
                &&& r is Ok ==> final(self).vks() == old(self).vks().insert((country, issuer_key_hash), vk@)
                    && final(self).log() == old(self).log().push(Event::IssuerVkRegistered { country, issuer_key_hash })
            },
            final(self).spent() == old(self).spent(),
            final(self).trust() == old(self).trust(),
    {
        if !is_root(&origin) {
            return Err(Error::BadOrigin);
        }
        if !self.is_trusted_issuer(country, issuer_key_hash) {
            return Err(Error::IssuerNotRecognized);
        }
        let ghost vv = vk@;
        self.foreign_vks.insert((country, issuer_key_hash), vk);
        proof {
            assert(self.vks() =~= old(self).vks().insert((country, issuer_key_hash), vv));
        }
        self.events.push(Event::IssuerVkRegistered { country, issuer_key_hash });
        Ok(())
    }

    /// Verify a foreign age proof against the registered key of a recognized
    /// issuer, once per nullifier (relayer origin). An accepted nullifier is
    /// spent, so the same presentation is refused from then on.
    pub fn verify_foreign_proof(&mut self, origin: Origin, country: CountryId, issuer_key_hash: Hash32, proof: Vec<u8>, inputs: AgeProofPublicInputs) -> (r: Result<(), Error>)
        ensures
            r is Err ==> *final(self) == *old(self),
            (r == Err::<(), Error>(Error::BadOrigin)) == !(origin is Signed),
            origin is Signed ==> {
                let key = (country, issuer_key_hash);
                let trusted = old(self).trust().contains_key(key) && old(self).trust()[key];
                let replayed = old(self).spent().contains(inputs.nullifier);
                &&& (r == Err::<(), Error>(Error::IssuerNotRecognized)) == !trusted
                &&& (r == Err::<(), Error>(Error::ProofReplayed)) == (trusted && replayed)
                &&& (r == Err::<(), Error>(Error::VerifyingKeyNotFound)) == (trusted && !replayed
                    && !old(self).vks().contains_key(key))
                &&& trusted && !replayed && old(self).vks().contains_key(key) ==> exists|s: Seq<Fr>| {
                    let v = groth16_bytes_verdict(proof@, old(self).vks()[key], s);
                    &&& #[trigger] age_inputs_ok(inputs, s)
                    &&& (r == Err::<(), Error>(Error::MalformedZkProof)) == (v is Err)
                    &&& (r == Err::<(), Error>(Error::InvalidZkProof)) == (v == Ok::<bool, crate::zk::VerifyError>(false))
                    &&& r is Ok == (v == Ok::<bool, crate::zk::VerifyError>(true))
                }
                &&& r is Ok ==> !replayed && final(self).spent() == old(self).spent().insert(inputs.nullifier)
                    && final(self).log() == old(self).log().push(
                    Event::ForeignProofVerified { country, nullifier: inputs.nullifier },
                )
            },
            final(self).trust() == old(self).trust(),
            final(self).vks() == old(self).vks(),
            final(self).instrs() == old(self).instrs(),
    {
        match origin {
            Origin::Signed(_) => {},
            _ => return Err(Error::BadOrigin),
        }
        if !self.is_trusted_issuer(country, issuer_key_hash) {
            return Err(Error::IssuerNotRecognized);
        }
        if self.used_nullifiers.contains_key(&inputs.nullifier) {
            return Err(Error::ProofReplayed);
        }
        let vk = match self.foreign_vks.get(&(country, issuer_key_hash)) {
            Some(v) => v,
            None => return Err(Error::VerifyingKeyNotFound),
        };
        let ok = match age_proof::verify(proof.as_slice(), vk.as_slice(), &inputs) {
            Ok(b) => b,
            Err(_) => return Err(Error::MalformedZkProof),
        };
        if !ok {
            return Err(Error::InvalidZkProof);
        }
        self.used_nullifiers.insert(inputs.nullifier, ());
        proof {
            assert(self.spent() =~= old(self).spent().insert(inputs.nullifier));
        }
        self.events.push(Event::ForeignProofVerified { country, nullifier: inputs.nullifier });
        Ok(())
    }

    /// Register a bilateral tax treaty (federation origin).
    pub fn register_treaty(&mut self, origin: Origin, a: CountryId, b: CountryId, treaty: TaxTreaty) -> (r: Result<(), Error>)
        ensures
            r is Err <==> origin != Origin::Root,
            r is Err ==> r == Err::<(), Error>(Error::BadOrigin) && *final(self) == *old(self),
            r is Ok ==> final(self).treaty_map() == old(self).treaty_map().insert((a, b), treaty)
                && final(self).log() == old(self).log().push(Event::TreatyRegistered { a, b }),
    {
        if !is_root(&origin) {
            return Err(Error::BadOrigin);
        }
        self.treaties.insert((a, b), treaty);
        self.events.push(Event::TreatyRegistered { a, b });
        Ok(())
    }

    /// Recognize a foreign e-invoice; the issuing chain must have a finalized
    /// head (relayer origin).
    pub fn recognize_foreign_invoice(&mut self, origin: Origin, country: CountryId, invoice_hash: Hash32) -> (r: Result<(), Error>)
        ensures
            r is Err ==> r == Err::<(), Error>(Error::BadOrigin) || r == Err::<(), Error>(Error::NoFinalizedHead),
            r is Err ==> *final(self) == *old(self),
            (r == Err::<(), Error>(Error::BadOrigin)) == !(origin is Signed),
            origin is Signed ==> {
                &&& (r == Err::<(), Error>(Error::NoFinalizedHead)) == !old(self).heads().contains_key(country)
                &&& r is Ok ==> final(self).invoices() == old(self).invoices().insert((country, invoice_hash), true)
                    && final(self).log() == old(self).log().push(
                    Event::ForeignInvoiceRecognized { country, invoice_hash },
                )
            },
    {
        match origin {
            Origin::Signed(_) => {},
            _ => return Err(Error::BadOrigin),
        }
        if !self.finalized_heads.contains_key(&country) {
            return Err(Error::NoFinalizedHead);
        }
        self.recognized_invoices.insert((country, invoice_hash), true);
        self.events.push(Event::ForeignInvoiceRecognized { country, invoice_hash });
        Ok(())
    }

    /// Register a subject for One-Stop-Shop VAT (signed origin), once.
    pub fn oss_register(&mut self, origin: Origin, subject: Did, registration: OssRegistration) -> (r: Result<(), Error>)
        ensures
            r is Err ==> r == Err::<(), Error>(Error::AlreadyRegisteredOss) || r == Err::<(), Error>(Error::BadOrigin),
            r is Err ==> *final(self) == *old(self),
            (r == Err::<(), Error>(Error::BadOrigin)) == !(origin is Signed),
            origin is Signed ==> {
                &&& (r == Err::<(), Error>(Error::AlreadyRegisteredOss)) == old(self).oss().contains_key(subject@)
                &&& r is Ok ==> final(self).oss() == old(self).oss().insert(subject@, registration)
                    && final(self).log() == old(self).log().push(Event::OssRegistered { home: registration.home })
            },
    {
        match origin {
            Origin::Signed(_) => {},
            _ => return Err(Error::BadOrigin),
        }
        if self.oss_registrations.contains_key(&subject) {
            return Err(Error::AlreadyRegisteredOss);
        }
        let home = registration.home;
        self.oss_registrations.insert(subject, registration);
        self.events.push(Event::OssRegistered { home });
        Ok(())
    }

    /// Report OSS VAT due to a destination country: a pending clearing
    /// instruction from the subject's home country (signed origin).
    pub fn oss_report(&mut self, origin: Origin, subject: Did, to: CountryId, amount: XsuAmount, detail_commitment: Commitment) -> (r: Result<(), Error>)
        ensures
            r is Err ==> r == Err::<(), Error>(Error::BadOrigin) || r == Err::<(), Error>(Error::OssNotRegistered),
            r is Err ==> *final(self) == *old(self),
            (r == Err::<(), Error>(Error::BadOrigin)) == !(origin is Signed),
            origin is Signed ==> {
                &&& (r == Err::<(), Error>(Error::OssNotRegistered)) == !old(self).oss().contains_key(subject@)
                &&& r is Ok ==> {
                    let from = old(self).oss()[subject@].home;
                    let id = old(self).next_id();
                    &&& final(self).instrs() == old(self).instrs().insert(
                        id,
                        ClearingInstruction { from, to, amount, detail_commitment, status: XcmStatus::Pending },
                    )
                    &&& final(self).log() == old(self).log().push(
                        Event::InstructionSubmitted { id, from, to, amount },
                    ).push(Event::OssReported { from, to, amount })
                }
            },
    {
        match origin {
            Origin::Signed(_) => {},
            _ => return Err(Error::BadOrigin),
        }
        let from = match self.oss_registrations.get(&subject) {
            Some(reg) => reg.home,
            None => return Err(Error::OssNotRegistered),
        };
        let _id = self.new_instruction(from, to, amount, detail_commitment);
        self.events.push(Event::OssReported { from, to, amount });
        Ok(())
    }

    /// Whether an issuer is registered and active.
    pub fn is_trusted_issuer(&self, country: CountryId, issuer_key_hash: Hash32) -> (r: bool)
        ensures
            r == (self.trust().contains_key((country, issuer_key_hash)) && self.trust()[(country, issuer_key_hash)]),
    {
        match self.trust_registry.get(&(country, issuer_key_hash)) {
            Some(e) => e.active,
            None => false,
        }
    }

    /// Whether a country has at least one active registered issuer.
    pub fn country_recognized(&self, country: CountryId) -> (r: bool)
        ensures
            r == exists|k: (CountryId, Hash32)| #[trigger] self.trust().contains_key(k) && k.0 == country && self.trust()[k],
    {
        let n = self.trust_registry.size();
        let mut i: usize = 0;
        while i < n
            invariant
                i <= n == self.trust_registry.key_seq().len(),
                self.trust_registry.seqs_describe(),
                forall|j: int| 0 <= j < i ==> !(#[trigger] self.trust_registry.key_seq()[j].0 == country
                    && self.trust_registry@[self.trust_registry.key_seq()[j]].active),
            decreases n - i,
        {
            let k = self.trust_registry.key_at(i);
            let e = self.trust_registry.value_at(i);
            if crate::table::bytes_eq(&k.0, &country) && e.active {
                proof {
                    let kk = self.trust_registry.key_seq()[i as int];
                    assert(self.trust().contains_key(kk));
                }
                return true;
            }
            i = i + 1;
        }
        proof {
            assert forall|k: (CountryId, Hash32)| #[trigger] self.trust().contains_key(k) && k.0 == country implies !self.trust()[k] by {
                assert(self.trust_registry.key_seq().contains(k));
                let j = self.trust_registry.key_seq().index_of(k);
                assert(self.trust_registry.key_seq()[j] == k);
            }
        }
        false
    }

    /// The universal DID resolver: a local DID resolves through the identity
    /// registry; a foreign one names its source country and whether that
    /// country has a recognized issuer.
    pub fn resolve_did(&self, did: &Did, registry: &identity::Pallet) -> (r: DidResolution)
        ensures
            did.chain_tag@ == self.tag() ==> match r {
                DidResolution::Local(d) => registry.documents().contains_key(did@) && d@ == registry.documents()[did@],
                DidResolution::LocalUnknown => !registry.documents().contains_key(did@),
                DidResolution::Foreign { .. } => false,
            },
            did.chain_tag@ != self.tag() ==> r == (DidResolution::Foreign {
                country: tag_country(did.chain_tag@),
                recognized: exists|k: (CountryId, Hash32)| #[trigger] self.trust().contains_key(k) && k.0
                    == tag_country(did.chain_tag@) && self.trust()[k],
            }),
    {
        if did.is_local(self.local_tag.as_slice()) {
            match registry.resolve(did) {
                Some(doc) => DidResolution::Local(doc),
                None => DidResolution::LocalUnknown,
            }
        } else {
            let country = tag_to_country(did.chain_tag.as_slice());
            let recognized = self.country_recognized(country);
            DidResolution::Foreign { country, recognized }
        }
    }

    /// The net position of a corridor (zero when none).
    pub fn net_position(&self, from: CountryId, to: CountryId) -> (r: XsuAmount)
        ensures
            r.0 == position_of(self.positions(), (from, to)),
    {
        match self.net_positions.get(&(from, to)) {
            Some(a) => *a,
            None => XsuAmount(0),
        }
    }

    /// The treaty between two countries, in either order.
    pub fn treaty_for(&self, a: CountryId, b: CountryId) -> (r: Option<TaxTreaty>)
        ensures
            r == if self.treaty_map().contains_key((a, b)) {
                Some(self.treaty_map()[(a, b)])
            } else if self.treaty_map().contains_key((b, a)) {
                Some(self.treaty_map()[(b, a)])
            } else {
                None::<TaxTreaty>
            },
    {
        match self.treaties.get(&(a, b)) {
            Some(t) => Some(*t),
            None => match self.treaties.get(&(b, a)) {
                Some(t) => Some(*t),
                None => None,
            },
        }
    }

    /// Whether a foreign invoice has been recognized.
    pub fn is_recognized_invoice(&self, country: CountryId, invoice_hash: Hash32) -> (r: bool)
        ensures
            r == (self.invoices().contains_key((country, invoice_hash)) && self.invoices()[(country, invoice_hash)]),
    {
        match self.recognized_invoices.get(&(country, invoice_hash)) {
            Some(b) => *b,
            None => false,
        }
    }

    /// The finalized head of a bridged chain.
    pub fn finalized_head(&self, country: CountryId) -> (r: Option<(Hash32, BlockNumber)>)
        ensures
            r == if self.heads().contains_key(country) { Some(self.heads()[country]) } else { None },
    {
        match self.finalized_heads.get(&country) {
            Some(h) => Some(*h),
            None => None,
        }
    }

    /// The recognized authority set of a bridged chain.
    pub fn authority_set(&self, country: CountryId) -> (r: Option<&GrandpaAuthoritySet>)
        ensures
            match r {
                Some(s) => self.sets().contains_key(country) && *s == self.sets()[country],
                None => !self.sets().contains_key(country),
            },
    {
        self.authority_sets.get(&country)
    }

    /// A clearing instruction by id.
    pub fn instruction(&self, id: u64) -> (r: Option<ClearingInstruction>)
        ensures
            r == if self.instrs().contains_key(id) { Some(self.instrs()[id]) } else { None },
    {
        match self.instructions.get(&id) {
            Some(i) => Some(*i),
            None => None,
        }
    }

    /// A validator's bond.
    pub fn validator_bond(&self, who: AccountId) -> (r: Option<Balance>)
        ensures
            r == if self.bonds().contains_key(who) { Some(self.bonds()[who]) } else { None },
    {
        match self.validators.get(&who) {
            Some(b) => Some(*b),
            None => None,
        }
    }

    /// Total slashed from validators.
    pub fn total_slashed(&self) -> (r: Balance)
        ensures
            r == self.slashed(),
    {
        self.total_slashed
    }

    /// Whether a nullifier has been spent.
    pub fn is_nullifier_used(&self, n: Nullifier) -> (r: bool)
        ensures
            r == self.spent().contains(n),
    {
        self.used_nullifiers.contains_key(&n)
    }

    /// Check a finality proof against the recognized set.
    fn map_verify(set: &GrandpaAuthoritySet, proof: &crate::primitives::GrandpaFinalityProof) -> (r: Result<(), Error>)
        ensures
            r == match finality_outcome(*set, proof@) {
                Ok(()) => Ok::<(), Error>(()),
                Err(e) => Err(grandpa_error(e)),
            },
    {
        match verify_finality_proof(set, proof) {
            Ok(()) => Ok(()),
            Err(e) => Err(match e {
                GrandpaVerifyError::SetIdMismatch => Error::SetIdMismatch,
                GrandpaVerifyError::UnknownAuthority => Error::UnknownAuthority,
                GrandpaVerifyError::DuplicateAuthority => Error::DuplicateAuthority,
                GrandpaVerifyError::BadSignature => Error::BadFinalityProof,
                GrandpaVerifyError::NotEnoughWeight => Error::BadFinalityProof,
                GrandpaVerifyError::MalformedKey => Error::MalformedFinalityProof,
            }),
        }
    }

    /// The outcome of checking `proof` for `country` and advancing its head.
    pub open spec fn advance_outcome(self, country: CountryId, proof: FinalityProofView) -> Result<(), Error> {
        if !self.sets().contains_key(country) {
            Err(Error::AuthoritySetNotInitialized)
        } else {
            match finality_outcome(self.sets()[country], proof) {
                Err(e) => Err(grandpa_error(e)),
                Ok(()) => if self.heads().contains_key(country) && proof.target_number
                    < self.heads()[country].1 {
                    Err(Error::StaleFinality)
                } else {
                    Ok(())
                },
            }
        }
    }

    /// A finalized head never moves backwards: a proof whose target is older
    /// than the country's head is refused as stale, and an accepted one
    /// targets the head's number or a later block.
    pub proof fn lemma_head_never_decreases(self, country: CountryId, proof: FinalityProofView)
        ensures
            self.heads().contains_key(country) && proof.target_number < self.heads()[country].1
                ==> self.advance_outcome(country, proof) is Err,
            self.advance_outcome(country, proof) is Ok && self.heads().contains_key(country)
                ==> proof.target_number >= self.heads()[country].1,
    {
    }

    /// Verify `proof` against the recognized set of `country` and advance its
    /// finalized head; the head never moves backwards.
    fn verify_and_advance(&mut self, country: CountryId, proof: &crate::primitives::GrandpaFinalityProof) -> (r: Result<(), Error>)
        ensures
            r == old(self).advance_outcome(country, proof@),
            r is Err ==> *final(self) == *old(self),
            r is Ok ==> final(self).heads() == old(self).heads().insert(
                country,
                (proof.target_hash, proof.target_number),
            ) && final(self).log() == old(self).log().push(
                Event::HeadFinalized { country, number: proof.target_number },
            ),
            final(self).instrs() == old(self).instrs(),
            final(self).instructions == old(self).instructions,
            final(self).sets() == old(self).sets(),
            final(self).trust() == old(self).trust(),
            final(self).spent() == old(self).spent(),
            final(self).positions() == old(self).positions(),
    {
        let set = match self.authority_sets.get(&country) {
            Some(s) => s,
            None => return Err(Error::AuthoritySetNotInitialized),
        };
        match Self::map_verify(set, proof) {
            Ok(()) => {},
            Err(e) => return Err(e),
        }
        match self.finalized_heads.get(&country) {
            Some(head) => {
                if proof.target_number < head.1 {
                    return Err(Error::StaleFinality);
                }
            },
            None => {},
        }
        self.finalized_heads.insert(country, (proof.target_hash, proof.target_number));
        self.events.push(Event::HeadFinalized { country, number: proof.target_number });
        Ok(())
    }

    /// Release a pending instruction once the source chain's finality proof
    /// checks out (relayer origin): the proof is decoded from its SCALE bytes,
    /// verified against the recognized authority set of the instruction's
    /// source country, the source head advances, and the instruction becomes
    /// finality-verified.
    pub fn verify_finality(&mut self, origin: Origin, id: u64, finality_proof: Vec<u8>) -> (r: Result<(), Error>)
        requires
            finality_proof@.len() <= MAX_FINALITY_PROOF_LEN,
        ensures
            r is Err ==> *final(self) == *old(self),
            (r == Err::<(), Error>(Error::BadOrigin)) == !(origin is Signed),
            origin is Signed ==> {
                let b = finality_proof@;
                &&& (r == Err::<(), Error>(Error::InvalidFinalityProof)) == (b.len() == 0)
                &&& (r == Err::<(), Error>(Error::MalformedFinalityProof) && decoded_proof(b) is None)
                    == (b.len() > 0 && decoded_proof(b) is None)
                &&& decoded_proof(b) matches Some(p) ==> b.len() > 0 ==> {
                    &&& (r == Err::<(), Error>(Error::UnknownInstruction)) == !old(self).instrs().contains_key(id)
                    &&& old(self).instrs().contains_key(id) ==> {
                        let instr = old(self).instrs()[id];
                        &&& (r == Err::<(), Error>(Error::InvalidStatus)) == (instr.status != XcmStatus::Pending)
                        &&& instr.status == XcmStatus::Pending ==> {
                            &&& r == old(self).advance_outcome(instr.from, p)
                            &&& r is Ok ==> {
                                &&& final(self).instrs() == old(self).instrs().insert(
                                    id,
                                    ClearingInstruction { status: XcmStatus::FinalityVerified, ..instr },
                                )
                                &&& final(self).heads() == old(self).heads().insert(
                                    instr.from,
                                    (p.target_hash, p.target_number),
                                )
                                &&& final(self).log() == old(self).log().push(
                                    Event::HeadFinalized { country: instr.from, number: p.target_number },
                                ).push(Event::FinalityVerified { id })
                            }
                        }
                    }
                }
            },
            final(self).sets() == old(self).sets(),
            final(self).positions() == old(self).positions(),
            final(self).spent() == old(self).spent(),
    {
        match origin {
            Origin::Signed(_) => {},
            _ => return Err(Error::BadOrigin),
        }
        if finality_proof.len() == 0 {
            return Err(Error::InvalidFinalityProof);
        }
        let proof = match decode_finality_proof(finality_proof.as_slice()) {
            Some(p) => p,
            None => return Err(Error::MalformedFinalityProof),
        };
        proof {
            assert(decoded_proof(finality_proof@) == Some(proof@));
        }
        let instr = match self.instructions.get(&id) {
            Some(i) => *i,
            None => return Err(Error::UnknownInstruction),
        };
        match instr.status {
            XcmStatus::Pending => {},
            _ => return Err(Error::InvalidStatus),
        }
        match self.verify_and_advance(instr.from, &proof) {
            Ok(()) => {},
            Err(e) => return Err(e),
        }
        self.instructions.insert(id, ClearingInstruction { status: XcmStatus::FinalityVerified, ..instr });
        self.events.push(Event::FinalityVerified { id });
        Ok(())
    }
}

} // verus!
