//! Federation governance and the XSU reserve.
//!
//! Council members propose federation actions and vote on them; a proposal
//! that passes the dual-majority rule of its domain is queued behind a
//! timelock and enacted when its block begins. The XSU is minted one-for-one
//! against CBDC deposits into the reserve pool and burned on redemption, so
//! the units issued always equal both the reserve held and the balances of
//! the members.
use vstd::prelude::*;
use crate::origin::Origin;
use crate::perbill::Perbill;
use crate::primitives::{
    domain_threshold, spec_domain, spec_domain_threshold, AccountId, Balance, BlockNumber, CbdcCode,
    FederationAction, Hash32, MemberId, ProposalId, Vote, XsuAmount, XsuBasket, weight_sum,
    MAX_FEDERATION_MEMBERS,
};
use crate::perbill::BILLION;
use crate::table::{bytes_eq, Table};
use crate::voting::{distinct_voters, dual_majority, passes_dual_majority};
use crate::hashing::{blake2_256, blake2_256_of};
use crate::scale::{le_bytes, push_le};

verus! {

/// A governance proposal: the action, the ballots cast so far (one per
/// member), and the block it was made at.
pub struct Proposal {
    pub action: FederationAction,
    pub votes: Vec<(MemberId, Vote)>,
    pub created_at: BlockNumber,
}

impl Proposal {
    /// A fresh proposal with no ballots.
    pub fn new(action: FederationAction, created_at: BlockNumber) -> (r: Proposal)
        ensures
            r.action == action,
            r.votes@ == Seq::<(MemberId, Vote)>::empty(),
            r.created_at == created_at,
    {
        Proposal { action, votes: Vec::new(), created_at }
    }

    /// The dual-majority threshold of the proposal's domain.
    pub fn threshold(&self) -> (r: Perbill)
        ensures
            r.value() == spec_domain_threshold(spec_domain(self.action)),
    {
        domain_threshold(self.action.domain())
    }
}

/// Events of the federation.
#[derive(Clone, Debug)]
pub enum Event {
    Proposed { id: ProposalId, by: MemberId },
    Voted { id: ProposalId, member: MemberId, vote: Vote },
    Queued { id: ProposalId, eta: BlockNumber },
    Enacted { id: ProposalId },
    MembershipChanged { member: MemberId, seated: bool },
    BasketReweighted { version: u32 },
    RuntimeUpgradeTriggered { code_hash: Hash32 },
    XsuMinted { member: MemberId, cbdc: CbdcCode, cbdc_amount: Balance, xsu_minted: Balance },
    XsuRedeemed { member: MemberId, cbdc: CbdcCode, xsu_burned: Balance, cbdc_amount: Balance },
    ClearingBooked { from: MemberId, to: MemberId, amount: XsuAmount },
    NetSettled { window: u32 },
    ProofOfReservePublished { block: BlockNumber, digest: Hash32 },
}

/// Errors of the federation.
#[derive(Clone, Copy, Debug, PartialEq, Eq)]
pub enum Error {
    /// The origin is not a council member.
    BadOrigin,
    Unknown,
    Rejected,
    AlreadyVoted,
    AlreadyQueued,
    UnbalancedBasket,
    TooManyBasketEntries,
    InsufficientReserve,
    InsufficientXsu,
    Overflow,
    UnknownCbdc,
}

/// The sum of a list of balances.
pub open spec fn balance_sum(s: Seq<Balance>) -> int
    decreases s.len(),
{
    if s.len() == 0 {
        0
    } else {
        balance_sum(s.drop_last()) + s.last()
    }
}

proof fn lemma_balance_sum_push(s: Seq<Balance>, v: Balance)
    ensures
        balance_sum(s.push(v)) == balance_sum(s) + v,
{
    assert(s.push(v).drop_last() =~= s);
}

proof fn lemma_balance_sum_update(s: Seq<Balance>, i: int, v: Balance)
    requires
        0 <= i < s.len(),
    ensures
        balance_sum(s.update(i, v)) == balance_sum(s) - s[i] + v,
    decreases s.len(),
{
    if i == s.len() - 1 {
        assert(s.update(i, v).drop_last() =~= s.drop_last());
    } else {
        lemma_balance_sum_update(s.drop_last(), i, v);
        assert(s.update(i, v).drop_last() =~= s.drop_last().update(i, v));
    }
}

proof fn lemma_balance_sum_ge(s: Seq<Balance>, i: int)
    requires
        0 <= i < s.len(),
    ensures
        balance_sum(s) >= s[i],
        balance_sum(s) >= 0,
    decreases s.len(),
{
    lemma_balance_sum_nonneg(s.drop_last());
    if i < s.len() - 1 {
        lemma_balance_sum_ge(s.drop_last(), i);
    }
}

proof fn lemma_balance_sum_two(s: Seq<Balance>, i: int, j: int)
    requires
        0 <= i < s.len(),
        0 <= j < s.len(),
        i != j,
    ensures
        balance_sum(s) >= s[i] + s[j],
    decreases s.len(),
{
    lemma_balance_sum_nonneg(s.drop_last());
    if i == s.len() - 1 {
        lemma_balance_sum_ge(s.drop_last(), j);
    } else if j == s.len() - 1 {
        lemma_balance_sum_ge(s.drop_last(), i);
    } else {
        lemma_balance_sum_two(s.drop_last(), i, j);
    }
}

proof fn lemma_balance_sum_nonneg(s: Seq<Balance>)
    ensures
        balance_sum(s) >= 0,
    decreases s.len(),
{
    if s.len() > 0 {
        lemma_balance_sum_nonneg(s.drop_last());
    }
}

/// The map built by inserting the pairs in order (later pairs win).
pub open spec fn weights_map(s: Seq<(MemberId, Perbill)>) -> Map<MemberId, Perbill>
    decreases s.len(),
{
    if s.len() == 0 {
        Map::empty()
    } else {
        weights_map(s.drop_last()).insert(s.last().0, s.last().1)
    }
}

/// The seats given as account-member pairs (a later pair for the same
/// account wins).
pub open spec fn seat_pairs(s: Seq<(AccountId, MemberId)>) -> Map<AccountId, MemberId>
    decreases s.len(),
{
    if s.len() == 0 {
        Map::empty()
    } else {
        seat_pairs(s.drop_last()).insert(s.last().0, s.last().1)
    }
}

/// The members of a council list, each seated.
pub open spec fn seated_map(s: Seq<(MemberId, Perbill)>) -> Map<MemberId, bool>
    decreases s.len(),
{
    if s.len() == 0 {
        Map::empty()
    } else {
        seated_map(s.drop_last()).insert(s.last().0, true)
    }
}

/// The council seat an origin speaks for.
pub open spec fn seat_of(seats: Map<AccountId, MemberId>, o: Origin) -> Option<MemberId> {
    match o {
        Origin::Signed(a) => if seats.contains_key(a) {
            Some(seats[a])
        } else {
            None
        },
        _ => None,
    }
}

/// The balance of a key of a balance table, zero when absent.
pub open spec fn balance_of<K>(m: Map<K, Balance>, k: K) -> int {
    if m.contains_key(k) {
        m[k] as int
    } else {
        0
    }
}


/// Whether the basket lists a CBDC.
fn basket_lists(b: &XsuBasket, cbdc: &CbdcCode) -> (r: bool)
    ensures
        r == exists|i: int| 0 <= i < b.entries@.len() && #[trigger] b.entries@[i].cbdc == *cbdc,
{
    let mut i: usize = 0;
    while i < b.entries.len()
        invariant
            i <= b.entries@.len(),
            forall|j: int| 0 <= j < i ==> #[trigger] b.entries@[j].cbdc != *cbdc,
        decreases b.entries@.len() - i,
    {
        if bytes_eq(&b.entries[i].cbdc, cbdc) {
            return true;
        }
        i = i + 1;
    }
    false
}

/// The first weight listed for a member, zero when none is.
pub open spec fn first_weight(ws: Seq<(MemberId, Perbill)>, m: MemberId) -> int
    decreases ws.len(),
{
    if ws.len() == 0 {
        0
    } else if ws[0].0 == m {
        ws[0].1.value()
    } else {
        first_weight(ws.drop_first(), m)
    }
}

fn find_weight(ws: &Vec<(MemberId, Perbill)>, m: &MemberId) -> (r: Perbill)
    ensures
        r.value() == first_weight(ws@, *m),
{
    let mut i: usize = 0;
    assert(ws@.skip(0) =~= ws@);
    while i < ws.len()
        invariant
            i <= ws@.len(),
            first_weight(ws@, *m) == first_weight(ws@.skip(i as int), *m),
        decreases ws@.len() - i,
    {
        assert(ws@.skip(i as int)[0] == ws@[i as int]);
        assert(ws@.skip(i as int).drop_first() =~= ws@.skip(i + 1));
        if bytes_eq(&ws[i].0, m) {
            return ws[i].1;
        }
        i = i + 1;
    }
    Perbill::zero()
}

/// What setting a basket does: an unbalanced basket is refused and nothing
/// changes; a balanced one is put in force, the weight list is rebuilt over
/// the members in council order (first listed weight, zero when none, at
/// most the council cap), and the new version is announced.
pub open spec fn basket_outcome(old: Pallet, new: Pallet, basket: XsuBasket, r: Result<(), Error>) -> bool {
    &&& (r == Err::<(), Error>(Error::UnbalancedBasket) <==> weight_sum(basket.entries@) != BILLION)
    &&& r is Ok ==> {
        &&& new.basket() == Some(basket)
        &&& rebuilt_weights(old, new)
        &&& new.log() == old.log().push(Event::BasketReweighted { version: basket.version })
    }
}

/// The weight list of `new` is rebuilt from `old` over the members in council
/// order: each member's first listed weight (zero when none), up to the
/// council cap.
pub open spec fn rebuilt_weights(old: Pallet, new: Pallet) -> bool {
    let keys = old.members_in_order();
    &&& new.weight_list().len() == if keys.len() <= MAX_FEDERATION_MEMBERS { keys.len() as int } else { MAX_FEDERATION_MEMBERS as int }
    &&& forall|j: int| 0 <= j < new.weight_list().len() ==> #[trigger] new.weight_list()[j].0 == keys[j]
        && new.weight_list()[j].1.value() == first_weight(old.weight_list(), keys[j])
}

/// What enacting the open proposal `id` does: the proposal is closed, its
/// action takes effect (a member seated or unseated, a balanced basket put in
/// force, an upgrade announced; a parameter change has no effect here), and
/// `Enacted` is the last event.
pub open spec fn enact_effect(old: Pallet, new: Pallet, id: ProposalId) -> bool {
    let enacted = Event::Enacted { id };
    &&& new.proposal_map() == old.proposal_map().remove(id)
    &&& match old.proposal_map()[id].action {
        FederationAction::SetParameter { .. } => {
            &&& new.member_map() == old.member_map()
            &&& new.weight_list() == old.weight_list()
            &&& new.basket() == old.basket()
            &&& new.log() == old.log().push(enacted)
        },
        FederationAction::AdmitMember { member } => {
            &&& new.member_map() == old.member_map().insert(member, true)
            &&& new.weight_list() == old.weight_list()
            &&& new.basket() == old.basket()
            &&& new.log() == old.log().push(Event::MembershipChanged { member, seated: true }).push(enacted)
        },
        FederationAction::RemoveMember { member } => {
            &&& new.member_map() == old.member_map().insert(member, false)
            &&& new.weight_list() == old.weight_list()
            &&& new.basket() == old.basket()
            &&& new.log() == old.log().push(Event::MembershipChanged { member, seated: false }).push(enacted)
        },
        FederationAction::SuspendMember { member } => {
            &&& new.member_map() == old.member_map().insert(member, false)
            &&& new.weight_list() == old.weight_list()
            &&& new.basket() == old.basket()
            &&& new.log() == old.log().push(Event::MembershipChanged { member, seated: false }).push(enacted)
        },
        FederationAction::Reweight { basket } => {
            &&& new.member_map() == old.member_map()
            &&& if weight_sum(basket.entries@) == BILLION {
                &&& new.basket() == Some(basket)
                &&& rebuilt_weights(old, new)
                &&& new.log() == old.log().push(Event::BasketReweighted { version: basket.version }).push(enacted)
            } else {
                &&& new.basket() == old.basket()
                &&& new.weight_list() == old.weight_list()
                &&& new.log() == old.log().push(enacted)
            }
        },
        FederationAction::RuntimeUpgrade { code_hash } => {
            &&& new.member_map() == old.member_map()
            &&& new.weight_list() == old.weight_list()
            &&& new.basket() == old.basket()
            &&& new.log() == old.log().push(Event::RuntimeUpgradeTriggered { code_hash }).push(enacted)
        },
    }
}

/// What a mint does: the XSU issued, the reserve of the CBDC and the member's
/// balance each grow by the amount, and the mint is announced.
pub open spec fn mint_effect(old: Pallet, new: Pallet, who: MemberId, cbdc: CbdcCode, amount: Balance) -> bool {
    &&& new.issued() == old.issued() + amount
    &&& new.reserve() == old.reserve().insert(cbdc, (balance_of(old.reserve(), cbdc) + amount) as Balance)
    &&& new.balances() == old.balances().insert(who, (balance_of(old.balances(), who) + amount) as Balance)
    &&& new.log() == old.log().push(Event::XsuMinted { member: who, cbdc, cbdc_amount: amount, xsu_minted: amount })
}

/// What a redemption does: the XSU issued, the reserve of the CBDC and the
/// member's balance each shrink by the amount, and the redemption is
/// announced.
pub open spec fn redeem_effect(old: Pallet, new: Pallet, who: MemberId, cbdc: CbdcCode, amount: Balance) -> bool {
    &&& new.issued() == old.issued() - amount
    &&& new.reserve() == old.reserve().insert(cbdc, (balance_of(old.reserve(), cbdc) - amount) as Balance)
    &&& new.balances() == old.balances().insert(who, (balance_of(old.balances(), who) - amount) as Balance)
    &&& new.log() == old.log().push(Event::XsuRedeemed { member: who, cbdc, xsu_burned: amount, cbdc_amount: amount })
}

/// Minting an amount and then redeeming the same amount, by the same member
/// and against the same CBDC, restores the XSU issued, every reserve entry and
/// every balance.
pub proof fn lemma_mint_then_redeem(p0: Pallet, p1: Pallet, p2: Pallet, who: MemberId, cbdc: CbdcCode, amount: Balance)
    requires
        p0.wf(),
        mint_effect(p0, p1, who, cbdc, amount),
        redeem_effect(p1, p2, who, cbdc, amount),
    ensures
        p2.issued() == p0.issued(),
        forall|c: CbdcCode| balance_of(#[trigger] p2.reserve(), c) == balance_of(p0.reserve(), c),
        forall|m: MemberId| balance_of(#[trigger] p2.balances(), m) == balance_of(p0.balances(), m),
{
    p0.lemma_entries_bounded(cbdc, who);
    assert(p1.issued() <= u128::MAX);
    assert forall|c: CbdcCode| balance_of(#[trigger] p2.reserve(), c) == balance_of(p0.reserve(), c) by {
        if c == cbdc {
            assert(balance_of(p1.reserve(), c) == balance_of(p0.reserve(), c) + amount);
        }
    }
    assert forall|m: MemberId| balance_of(#[trigger] p2.balances(), m) == balance_of(p0.balances(), m) by {
        if m == who {
            assert(balance_of(p1.balances(), m) == balance_of(p0.balances(), m) + amount);
        }
    }
}

/// The bytes of reserve entries: code, then balance as 16 little-endian bytes.
pub open spec fn reserve_entries_bytes(codes: Seq<CbdcCode>, bals: Seq<Balance>) -> Seq<u8>
    decreases codes.len(),
{
    if codes.len() == 0 || bals.len() == 0 {
        Seq::empty()
    } else {
        reserve_entries_bytes(codes.drop_last(), bals.drop_last()) + codes.last()@ + le_bytes(bals.last() as int, 16)
    }
}

/// The reserve entries' bytes lay out each entry in 19 bytes: its 3-byte
/// code, then its balance as 16 little-endian bytes.
pub proof fn lemma_reserve_entries_layout(codes: Seq<CbdcCode>, bals: Seq<Balance>)
    requires
        codes.len() == bals.len(),
    ensures
        reserve_entries_bytes(codes, bals).len() == 19 * codes.len(),
        forall|i: int| 0 <= i < codes.len() ==> {
            &&& #[trigger] reserve_entries_bytes(codes, bals).subrange(19 * i, 19 * i + 3) == codes[i]@
            &&& reserve_entries_bytes(codes, bals).subrange(19 * i + 3, 19 * i + 19) == le_bytes(bals[i] as int, 16)
        },
    decreases codes.len(),
{
    if codes.len() > 0 {
        let c2 = codes.drop_last();
        let b2 = bals.drop_last();
        lemma_reserve_entries_layout(c2, b2);
        crate::scale::lemma_le_bytes_len(bals.last() as int, 16);
        let prev = reserve_entries_bytes(c2, b2);
        let whole = reserve_entries_bytes(codes, bals);
        let n = codes.len() - 1;
        assert(codes.last()@.len() == 3);
        assert(whole == prev + codes.last()@ + le_bytes(bals.last() as int, 16));
        assert forall|i: int| 0 <= i < codes.len() implies {
            &&& #[trigger] whole.subrange(19 * i, 19 * i + 3) == codes[i]@
            &&& whole.subrange(19 * i + 3, 19 * i + 19) == le_bytes(bals[i] as int, 16)
        } by {
            if i < n {
                assert(whole.subrange(19 * i, 19 * i + 3) =~= prev.subrange(19 * i, 19 * i + 3));
                assert(whole.subrange(19 * i + 3, 19 * i + 19) =~= prev.subrange(19 * i + 3, 19 * i + 19));
                assert(c2[i] == codes[i]);
                assert(b2[i] == bals[i]);
            } else {
                assert(whole.subrange(19 * i, 19 * i + 3) =~= codes.last()@);
                assert(whole.subrange(19 * i + 3, 19 * i + 19) =~= le_bytes(bals.last() as int, 16));
            }
        }
    }
}

/// Inserting into a balance table changes its total by the difference.
proof fn lemma_table_sum_insert<K: crate::table::TableKey>(old_t: Table<K, Balance>, k: K::KeyView, v: Balance, new_t: Table<K, Balance>)
    requires
        new_t@ == old_t@.insert(k, v),
        old_t@.contains_key(k) ==> new_t.key_seq() == old_t.key_seq() && new_t.value_seq() == old_t.value_seq().update(
            old_t.key_seq().index_of(k),
            v,
        ),
        !old_t@.contains_key(k) ==> new_t.key_seq() == old_t.key_seq().push(k) && new_t.value_seq() == old_t.value_seq().push(v),
        old_t.seqs_describe(),
    ensures
        balance_sum(new_t.value_seq()) == balance_sum(old_t.value_seq()) - balance_of(old_t@, k) + v,
{
    if old_t@.contains_key(k) {
        let i = old_t.key_seq().index_of(k);
        assert(old_t.key_seq().contains(k));
        assert(old_t.key_seq()[i] == k);
        assert(old_t@[old_t.key_seq()[i]] == old_t.value_seq()[i]);
        lemma_balance_sum_update(old_t.value_seq(), i, v);
    } else {
        lemma_balance_sum_push(old_t.value_seq(), v);
    }
}

/// Whether `who` already cast a ballot.
fn has_voted(votes: &Vec<(MemberId, Vote)>, who: &MemberId) -> (r: bool)
    ensures
        r == exists|i: int| 0 <= i < votes@.len() && #[trigger] votes@[i].0 == *who,
{
    let mut i: usize = 0;
    while i < votes.len()
        invariant
            i <= votes@.len(),
            forall|j: int| 0 <= j < i ==> #[trigger] votes@[j].0 != *who,
        decreases votes@.len() - i,
    {
        if bytes_eq(&votes[i].0, who) {
            return true;
        }
        i = i + 1;
    }
    false
}

/// The federation's state.
pub struct Pallet {
    now: BlockNumber,
    timelock: BlockNumber,
    seats: Table<AccountId, MemberId>,
    members: Table<MemberId, bool>,
    basket_weights: Vec<(MemberId, Perbill)>,
    active_basket: Option<XsuBasket>,
    proposals: Table<ProposalId, Proposal>,
    next_id: ProposalId,
    queued: Table<BlockNumber, ProposalId>,
    reserve_pool: Table<CbdcCode, Balance>,
    xsu_issued: Balance,
    xsu_balances: Table<MemberId, Balance>,
    last_proof_of_reserve: Option<(BlockNumber, Hash32)>,
    events: Vec<Event>,
}

impl Pallet {
    /// The ledger invariant: the XSU issued equals the reserve held and the
    /// members' balances; proposals hold one ballot per member; the weight
    /// list fits the council.
    pub closed spec fn wf(self) -> bool {
        &&& self.xsu_issued == balance_sum(self.reserve_pool.value_seq())
        &&& self.xsu_issued == balance_sum(self.xsu_balances.value_seq())
        &&& self.reserve_pool.seqs_describe()
        &&& self.xsu_balances.seqs_describe()
        &&& self.basket_weights@.len() <= MAX_FEDERATION_MEMBERS
        &&& forall|id: ProposalId| #[trigger]
            self.proposals@.contains_key(id) ==> distinct_voters(self.proposals@[id].votes@)
                && self.proposals@[id].votes@.len() <= MAX_FEDERATION_MEMBERS
                && id < self.next_id
    }

    /// The current block.
    pub closed spec fn clock(self) -> BlockNumber {
        self.now
    }

    /// Blocks between a passing vote and enactment.
    pub closed spec fn delay(self) -> BlockNumber {
        self.timelock
    }

    /// The events emitted so far.
    pub closed spec fn log(self) -> Seq<Event> {
        self.events@
    }


    /// The members in council (ledger) order.
    pub closed spec fn members_in_order(self) -> Seq<MemberId> {
        self.members.key_seq()
    }

    /// Any single reserve entry and any single balance fit in the XSU issued.
    proof fn lemma_entries_bounded(self, cbdc: CbdcCode, who: MemberId)
        requires
            self.wf(),
        ensures
            balance_of(self.reserve(), cbdc) <= self.issued(),
            balance_of(self.balances(), who) <= self.issued(),
    {
        if self.reserve_pool@.contains_key(cbdc) {
            let i = self.reserve_pool.key_seq().index_of(cbdc);
            assert(self.reserve_pool.key_seq().contains(cbdc));
            assert(self.reserve_pool.key_seq()[i] == cbdc);
            lemma_balance_sum_ge(self.reserve_pool.value_seq(), i);
        }
        if self.xsu_balances@.contains_key(who) {
            let i = self.xsu_balances.key_seq().index_of(who);
            assert(self.xsu_balances.key_seq().contains(who));
            assert(self.xsu_balances.key_seq()[i] == who);
            lemma_balance_sum_ge(self.xsu_balances.value_seq(), i);
        }
    }

    /// A single balance fits in the XSU issued.
    proof fn lemma_balance_bounded(self, who: MemberId)
        requires
            self.wf(),
        ensures
            balance_of(self.balances(), who) <= self.issued(),
    {
        if self.xsu_balances@.contains_key(who) {
            let i = self.xsu_balances.key_seq().index_of(who);
            assert(self.xsu_balances.key_seq().contains(who));
            assert(self.xsu_balances.key_seq()[i] == who);
            lemma_balance_sum_ge(self.xsu_balances.value_seq(), i);
        }
    }

    /// Two distinct members together hold no more than the XSU issued.
    proof fn lemma_two_balances(self, a: MemberId, b: MemberId)
        requires
            self.wf(),
        ensures
            a != b ==> balance_of(self.balances(), a) + balance_of(self.balances(), b) <= self.issued(),
    {
        let ks = self.xsu_balances.key_seq();
        let vs = self.xsu_balances.value_seq();
        if a != b && self.xsu_balances@.contains_key(a) && self.xsu_balances@.contains_key(b) {
            let i = ks.index_of(a);
            let j = ks.index_of(b);
            assert(ks.contains(a) && ks.contains(b));
            assert(ks[i] == a && ks[j] == b);
            lemma_balance_sum_two(vs, i, j);
        } else if a != b && self.xsu_balances@.contains_key(a) {
            let i = ks.index_of(a);
            assert(ks.contains(a));
            assert(ks[i] == a);
            lemma_balance_sum_ge(vs, i);
        } else if a != b && self.xsu_balances@.contains_key(b) {
            let j = ks.index_of(b);
            assert(ks.contains(b));
            assert(ks[j] == b);
            lemma_balance_sum_ge(vs, j);
        }
    }

    /// Units of XSU in circulation.
    pub closed spec fn issued(self) -> int {
        self.xsu_issued as int
    }

    /// The CBDC held in the reserve, per code.
    pub closed spec fn reserve(self) -> Map<CbdcCode, Balance> {
        self.reserve_pool@
    }

    /// XSU held per member.
    pub closed spec fn balances(self) -> Map<MemberId, Balance> {
        self.xsu_balances@
    }

    /// Council membership (seated or not) per member.
    pub closed spec fn member_map(self) -> Map<MemberId, bool> {
        self.members@
    }

    /// The accounts that speak for each council seat.
    pub closed spec fn seat_map(self) -> Map<AccountId, MemberId> {
        self.seats@
    }

    /// Open proposals.
    pub closed spec fn proposal_map(self) -> Map<ProposalId, Proposal> {
        self.proposals@
    }

    /// Proposals queued for enactment, per block.
    pub closed spec fn queue(self) -> Map<BlockNumber, ProposalId> {
        self.queued@
    }

    /// The id the next proposal gets.
    pub closed spec fn next_proposal_id(self) -> ProposalId {
        self.next_id
    }

    /// The basket weight list, in council order.
    pub closed spec fn weight_list(self) -> Seq<(MemberId, Perbill)> {
        self.basket_weights@
    }

    /// The basket in force.
    pub closed spec fn basket(self) -> Option<XsuBasket> {
        self.active_basket
    }

    /// The last published proof of reserve.
    pub closed spec fn reserve_proof(self) -> Option<(BlockNumber, Hash32)> {
        self.last_proof_of_reserve
    }

    /// Everything but the events, the clock and the given parts stays.
    pub open spec fn same_ledger(self, other: Pallet) -> bool {
        &&& self.issued() == other.issued()
        &&& self.reserve() == other.reserve()
        &&& self.balances() == other.balances()
    }

    /// A federation at genesis: the council seats (account to member), and
    /// the seated members with their basket weights.
    pub fn new(timelock: BlockNumber, seats: Vec<(AccountId, MemberId)>, council: Vec<(MemberId, Perbill)>) -> (r: Pallet)
        requires
            council@.len() <= MAX_FEDERATION_MEMBERS,
        ensures
            r.wf(),
            r.clock() == 0,
            r.delay() == timelock,
            r.issued() == 0,
            r.reserve() == Map::<CbdcCode, Balance>::empty(),
            r.balances() == Map::<MemberId, Balance>::empty(),
            r.proposal_map() == Map::<ProposalId, Proposal>::empty(),
            r.queue() == Map::<BlockNumber, ProposalId>::empty(),
            r.next_proposal_id() == 0,
            r.basket() is None,
            r.reserve_proof() is None,
            r.weight_list() == council@,
            r.member_map() == seated_map(council@),
            r.seat_map() == seat_pairs(seats@),
            r.log() == Seq::<Event>::empty(),
    {
        let mut seat_table: Table<AccountId, MemberId> = Table::new();
        let mut i: usize = 0;
        while i < seats.len()
            invariant
                i <= seats@.len(),
                seat_table@ == seat_pairs(seats@.subrange(0, i as int)),
            decreases seats@.len() - i,
        {
            seat_table.insert(seats[i].0, seats[i].1);
            proof {
                assert(seats@.subrange(0, i + 1).drop_last() =~= seats@.subrange(0, i as int));
            }
            i = i + 1;
        }
        proof {
            assert(seats@.subrange(0, seats@.len() as int) =~= seats@);
        }
        let mut members: Table<MemberId, bool> = Table::new();
        let mut j: usize = 0;
        while j < council.len()
            invariant
                j <= council@.len(),
                members@ == seated_map(council@.subrange(0, j as int)),
            decreases council@.len() - j,
        {
            members.insert(council[j].0, true);
            proof {
                assert(council@.subrange(0, j + 1).drop_last() =~= council@.subrange(0, j as int));
            }
            j = j + 1;
        }
        proof {
            assert(council@.subrange(0, council@.len() as int) =~= council@);
        }
        let reserve_pool: Table<CbdcCode, Balance> = Table::new();
        let xsu_balances: Table<MemberId, Balance> = Table::new();
        Pallet {
            now: 0,
            timelock,
            seats: seat_table,
            members,
            basket_weights: council,
            active_basket: None,
            proposals: Table::new(),
            next_id: 0,
            queued: Table::new(),
            reserve_pool,
            xsu_issued: 0,
            xsu_balances,
            last_proof_of_reserve: None,
            events: Vec::new(),
        }
    }

    /// The council seat the origin speaks for.
    fn council_member(&self, origin: &Origin) -> (r: Option<MemberId>)
        ensures
            r == seat_of(self.seat_map(), *origin),
    {
        match origin {
            Origin::Signed(a) => match self.seats.get(a) {
                Some(m) => Some(*m),
                None => None,
            },
            _ => None,
        }
    }

    /// Whether a member is seated.
    pub fn is_member(&self, m: &MemberId) -> (r: bool)
        ensures
            r == (self.member_map().contains_key(*m) && self.member_map()[*m]),
    {
        match self.members.get(m) {
            Some(b) => *b,
            None => false,
        }
    }

    /// Units of XSU issued.
    pub fn xsu_issued(&self) -> (r: Balance)
        ensures
            r == self.issued(),
    {
        self.xsu_issued
    }

    /// A member's XSU balance.
    pub fn xsu_balance(&self, m: &MemberId) -> (r: Balance)
        ensures
            r == balance_of(self.balances(), *m),
    {
        match self.xsu_balances.get(m) {
            Some(b) => *b,
            None => 0,
        }
    }

    /// The reserve held of a CBDC.
    pub fn reserve_of(&self, cbdc: &CbdcCode) -> (r: Balance)
        ensures
            r == balance_of(self.reserve(), *cbdc),
    {
        match self.reserve_pool.get(cbdc) {
            Some(b) => *b,
            None => 0,
        }
    }

    /// The proposal with id `id`, if open.
    pub fn proposal(&self, id: ProposalId) -> (r: Option<&Proposal>)
        ensures
            match r {
                Some(p) => self.proposal_map().contains_key(id) && *p == self.proposal_map()[id],
                None => !self.proposal_map().contains_key(id),
            },
    {
        self.proposals.get(&id)
    }

    /// The proposal queued for block `n`, if any.
    pub fn queued_at(&self, n: BlockNumber) -> (r: Option<ProposalId>)
        ensures
            match r {
                Some(id) => self.queue().contains_key(n) && id == self.queue()[n],
                None => !self.queue().contains_key(n),
            },
    {
        match self.queued.get(&n) {
            Some(id) => Some(*id),
            None => None,
        }
    }

    /// The last proof of reserve.
    pub fn last_proof_of_reserve(&self) -> (r: Option<(BlockNumber, Hash32)>)
        ensures
            r == self.reserve_proof(),
    {
        self.last_proof_of_reserve
    }

    /// Move the clock to block `n`.
    pub fn set_block_number(&mut self, n: BlockNumber)
        requires
            old(self).wf(),
        ensures
            final(self).wf(),
            final(self).seat_map() == old(self).seat_map(),
            final(self).clock() == n,
            final(self).delay() == old(self).delay(),
            final(self).same_ledger(*old(self)),
            final(self).proposal_map() == old(self).proposal_map(),
            final(self).queue() == old(self).queue(),
            final(self).member_map() == old(self).member_map(),
            final(self).log() == old(self).log(),
    {
        self.now = n;
    }


    /// Open a proposal on behalf of the caller's seat; ids count up from 0.
    pub fn propose(&mut self, origin: Origin, action: FederationAction) -> (r: Result<(), Error>)
        requires
            old(self).wf(),
            old(self).next_proposal_id() < u64::MAX,
        ensures
            r is Err ==> r == Err::<(), Error>(Error::BadOrigin),
            final(self).wf(),
            final(self).same_ledger(*old(self)),
            final(self).clock() == old(self).clock(),
            final(self).delay() == old(self).delay(),
            final(self).member_map() == old(self).member_map(),
            final(self).seat_map() == old(self).seat_map(),
            final(self).weight_list() == old(self).weight_list(),
            final(self).queue() == old(self).queue(),
            seat_of(old(self).seat_map(), origin) is None ==> r == Err::<(), Error>(Error::BadOrigin)
                && *final(self) == *old(self),
            seat_of(old(self).seat_map(), origin) matches Some(who) ==> {
                let id = old(self).next_proposal_id();
                &&& r is Ok
                &&& !old(self).proposal_map().contains_key(id)
                &&& final(self).next_proposal_id() == id + 1
                &&& final(self).proposal_map() == old(self).proposal_map().insert(
                    id,
                    final(self).proposal_map()[id],
                )
                &&& final(self).proposal_map()[id].action == action
                &&& final(self).proposal_map()[id].votes@.len() == 0
                &&& final(self).proposal_map()[id].created_at == old(self).clock()
                &&& final(self).log() == old(self).log().push(Event::Proposed { id, by: who })
            },
    {
        let who = match self.council_member(&origin) {
            Some(m) => m,
            None => return Err(Error::BadOrigin),
        };
        let id = self.next_id;
        self.next_id = id + 1;
        let p = Proposal::new(action, self.now);
        self.proposals.insert(id, p);
        proof {
            assert forall|k: ProposalId| #[trigger] self.proposals@.contains_key(k) implies distinct_voters(
                self.proposals@[k].votes@,
            ) && self.proposals@[k].votes@.len() <= MAX_FEDERATION_MEMBERS && k < self.next_id by {
                if k != id {
                    assert(old(self).proposals@.contains_key(k));
                }
            }
            assert(self.proposals@ =~= old(self).proposals@.insert(id, self.proposals@[id]));
        }
        self.events.push(Event::Proposed { id, by: who });
        Ok(())
    }

    /// Cast the caller's ballot on an open proposal; one ballot per member.
    pub fn vote(&mut self, origin: Origin, id: ProposalId, vote: Vote) -> (r: Result<(), Error>)
        requires
            old(self).wf(),
        ensures
            r is Err ==> r == Err::<(), Error>(Error::AlreadyVoted) || r == Err::<(), Error>(Error::BadOrigin) || r == Err::<(), Error>(Error::TooManyBasketEntries) || r == Err::<(), Error>(Error::Unknown),
            final(self).wf(),
            final(self).same_ledger(*old(self)),
            final(self).clock() == old(self).clock(),
            final(self).delay() == old(self).delay(),
            final(self).member_map() == old(self).member_map(),
            final(self).seat_map() == old(self).seat_map(),
            final(self).weight_list() == old(self).weight_list(),
            final(self).queue() == old(self).queue(),
            final(self).next_proposal_id() == old(self).next_proposal_id(),
            r is Err ==> *final(self) == *old(self),
            r == Err::<(), Error>(Error::BadOrigin) <==> seat_of(old(self).seat_map(), origin) is None,
            seat_of(old(self).seat_map(), origin) matches Some(who) ==> {
                &&& (r == Err::<(), Error>(Error::Unknown) <==> !old(self).proposal_map().contains_key(id))
                &&& old(self).proposal_map().contains_key(id) ==> {
                    let p = old(self).proposal_map()[id];
                    let voted = exists|i: int| 0 <= i < p.votes@.len() && #[trigger] p.votes@[i].0 == who;
                    &&& (r == Err::<(), Error>(Error::AlreadyVoted) <==> voted)
                    &&& (r == Err::<(), Error>(Error::TooManyBasketEntries) <==> !voted && p.votes@.len()
                        >= MAX_FEDERATION_MEMBERS)
                    &&& r is Ok ==> {
                        &&& final(self).proposal_map().dom() == old(self).proposal_map().dom()
                        &&& forall|k: ProposalId| k != id && #[trigger] final(self).proposal_map().contains_key(k)
                            ==> final(self).proposal_map()[k] == old(self).proposal_map()[k]
                        &&& final(self).proposal_map()[id].action == p.action
                        &&& final(self).proposal_map()[id].created_at == p.created_at
                        &&& final(self).proposal_map()[id].votes@ == p.votes@.push((who, vote))
                        &&& final(self).log() == old(self).log().push(
                            Event::Voted { id, member: who, vote },
                        )
                    }
                }
            },
    {
        let who = match self.council_member(&origin) {
            Some(m) => m,
            None => return Err(Error::BadOrigin),
        };
        let p = match self.proposals.get(&id) {
            Some(p) => p,
            None => return Err(Error::Unknown),
        };
        if has_voted(&p.votes, &who) {
            return Err(Error::AlreadyVoted);
        }
        if p.votes.len() >= MAX_FEDERATION_MEMBERS as usize {
            return Err(Error::TooManyBasketEntries);
        }
        let ghost old_p = *p;
        let mut taken = match self.proposals.remove(&id) {
            Some(p) => p,
            None => return Err(Error::Unknown),
        };
        taken.votes.push((who, vote));
        self.proposals.insert(id, taken);
        proof {
            assert forall|k: ProposalId| #[trigger] self.proposals@.contains_key(k) implies distinct_voters(
                self.proposals@[k].votes@,
            ) && self.proposals@[k].votes@.len() <= MAX_FEDERATION_MEMBERS && k < self.next_id by {
                if k != id {
                    assert(old(self).proposals@.contains_key(k));
                } else {
                    let vs = self.proposals@[k].votes@;
                    assert forall|a: int, b: int| 0 <= a < b < vs.len() implies #[trigger] vs[a].0
                        != #[trigger] vs[b].0 by {
                        if b == vs.len() - 1 {
                            assert(vs[a] == old_p.votes@[a]);
                        } else {
                            assert(vs[a] == old_p.votes@[a]);
                            assert(vs[b] == old_p.votes@[b]);
                        }
                    }
                }
            }
            assert(self.proposals@.dom() =~= old(self).proposals@.dom());
        }
        self.events.push(Event::Voted { id, member: who, vote });
        Ok(())
    }

    /// The basket weights as a map (a later entry for a member wins).
    fn weight_table(&self) -> (r: Table<MemberId, Perbill>)
        ensures
            r@ == weights_map(self.weight_list()),
    {
        let mut t: Table<MemberId, Perbill> = Table::new();
        let mut i: usize = 0;
        while i < self.basket_weights.len()
            invariant
                i <= self.basket_weights@.len(),
                t@ == weights_map(self.basket_weights@.subrange(0, i as int)),
            decreases self.basket_weights@.len() - i,
        {
            t.insert(self.basket_weights[i].0, self.basket_weights[i].1);
            proof {
                let s = self.basket_weights@.subrange(0, i + 1);
                assert(s.drop_last() =~= self.basket_weights@.subrange(0, i as int));
            }
            i = i + 1;
        }
        assert(self.basket_weights@.subrange(0, i as int) =~= self.basket_weights@);
        t
    }

    /// Close a proposal: if it passes the dual-majority rule of its domain,
    /// queue it for enactment a timelock from now. Anyone may close.
    pub fn close(&mut self, origin: Origin, id: ProposalId) -> (r: Result<(), Error>)
        requires
            old(self).wf(),
            old(self).clock() + old(self).delay() <= u32::MAX,
        ensures
            r is Err ==> r == Err::<(), Error>(Error::AlreadyQueued) || r == Err::<(), Error>(Error::BadOrigin) || r == Err::<(), Error>(Error::Rejected) || r == Err::<(), Error>(Error::Unknown),
            final(self).wf(),
            final(self).same_ledger(*old(self)),
            final(self).clock() == old(self).clock(),
            final(self).delay() == old(self).delay(),
            final(self).member_map() == old(self).member_map(),
            final(self).seat_map() == old(self).seat_map(),
            final(self).weight_list() == old(self).weight_list(),
            final(self).proposal_map() == old(self).proposal_map(),
            final(self).next_proposal_id() == old(self).next_proposal_id(),
            r is Err ==> *final(self) == *old(self),
            ({
                let eta = (old(self).clock() + old(self).delay()) as BlockNumber;
                let p = old(self).proposal_map()[id];
                let passes = dual_majority(
                    p.votes@,
                    weights_map(old(self).weight_list()),
                    spec_domain_threshold(spec_domain(p.action)),
                );
                &&& (r == Err::<(), Error>(Error::BadOrigin) <==> !(origin is Signed))
                &&& origin is Signed ==> {
                    &&& (r == Err::<(), Error>(Error::Unknown) <==> !old(self).proposal_map().contains_key(id))
                    &&& old(self).proposal_map().contains_key(id) ==> {
                        &&& (r == Err::<(), Error>(Error::Rejected) <==> !passes)
                        &&& (r == Err::<(), Error>(Error::AlreadyQueued) <==> passes
                            && old(self).queue().contains_key(eta))
                        &&& r is Ok ==> final(self).queue() == old(self).queue().insert(eta, id)
                            && final(self).log() == old(self).log().push(Event::Queued { id, eta })
                    }
                }
            }),
    {
        match origin {
            Origin::Signed(_) => {},
            _ => return Err(Error::BadOrigin),
        }
        let p = match self.proposals.get(&id) {
            Some(p) => p,
            None => return Err(Error::Unknown),
        };
        let basket = self.weight_table();
        let threshold = p.threshold();
        if !passes_dual_majority(p.votes.as_slice(), &basket, threshold) {
            return Err(Error::Rejected);
        }
        let eta = self.now + self.timelock;
        if self.queued.contains_key(&eta) {
            return Err(Error::AlreadyQueued);
        }
        self.queued.insert(eta, id);
        self.events.push(Event::Queued { id, eta });
        Ok(())
    }

    /// Seat or unseat a member (council-member origin).
    pub fn set_membership(&mut self, origin: Origin, member: MemberId, seated: bool) -> (r: Result<(), Error>)
        requires
            old(self).wf(),
        ensures
            r is Err ==> r == Err::<(), Error>(Error::BadOrigin),
            final(self).wf(),
            final(self).seat_map() == old(self).seat_map(),
            final(self).same_ledger(*old(self)),
            final(self).clock() == old(self).clock(),
            final(self).proposal_map() == old(self).proposal_map(),
            final(self).queue() == old(self).queue(),
            final(self).weight_list() == old(self).weight_list(),
            r is Err ==> *final(self) == *old(self),
            r is Err <==> seat_of(old(self).seat_map(), origin) is None,
            r is Err ==> r == Err::<(), Error>(Error::BadOrigin),
            r is Ok ==> final(self).member_map() == old(self).member_map().insert(member, seated)
                && final(self).log() == old(self).log().push(Event::MembershipChanged { member, seated }),
    {
        match self.council_member(&origin) {
            Some(_) => {},
            None => return Err(Error::BadOrigin),
        }
        self.members.insert(member, seated);
        self.events.push(Event::MembershipChanged { member, seated });
        Ok(())
    }

    /// Put a basket in force if its weights sum to exactly one whole, and
    /// rebuild the weight list over the members in council order, keeping each
    /// member's existing weight (zero when it had none), up to the council cap.
    pub fn set_basket(&mut self, origin: Origin, basket: XsuBasket) -> (r: Result<(), Error>)
        requires
            old(self).wf(),
        ensures
            r is Err ==> r == Err::<(), Error>(Error::BadOrigin) || r == Err::<(), Error>(Error::UnbalancedBasket),
            final(self).wf(),
            final(self).seat_map() == old(self).seat_map(),
            final(self).same_ledger(*old(self)),
            final(self).clock() == old(self).clock(),
            final(self).proposal_map() == old(self).proposal_map(),
            final(self).queue() == old(self).queue(),
            final(self).member_map() == old(self).member_map(),
            r is Err ==> *final(self) == *old(self),
            r == Err::<(), Error>(Error::BadOrigin) <==> seat_of(old(self).seat_map(), origin) is None,
            seat_of(old(self).seat_map(), origin) is Some ==> basket_outcome(*old(self), *final(self), basket, r),
    {
        match self.council_member(&origin) {
            Some(_) => {},
            None => return Err(Error::BadOrigin),
        }
        self.do_set_basket(basket)
    }

    /// See [`Pallet::set_basket`].
    fn do_set_basket(&mut self, basket: XsuBasket) -> (r: Result<(), Error>)
        requires
            old(self).wf(),
        ensures
            final(self).wf(),
            final(self).same_ledger(*old(self)),
            final(self).clock() == old(self).clock(),
            final(self).proposal_map() == old(self).proposal_map(),
            final(self).queue() == old(self).queue(),
            final(self).member_map() == old(self).member_map(),
            final(self).seat_map() == old(self).seat_map(),
            final(self).next_proposal_id() == old(self).next_proposal_id(),
            r is Err ==> *final(self) == *old(self),
            r is Err ==> r == Err::<(), Error>(Error::UnbalancedBasket),
            basket_outcome(*old(self), *final(self), basket, r),
    {
        if !basket.is_balanced() {
            return Err(Error::UnbalancedBasket);
        }
        let version = basket.version;
        let mut weights: Vec<(MemberId, Perbill)> = Vec::new();
        let n = self.members.size();
        let mut i: usize = 0;
        while i < n
            invariant
                i <= n == self.members.key_seq().len(),
                weights@.len() == if i <= MAX_FEDERATION_MEMBERS { i as int } else { MAX_FEDERATION_MEMBERS as int },
                forall|j: int| 0 <= j < weights@.len() ==> #[trigger] weights@[j].0 == self.members.key_seq()[j]
                    && weights@[j].1.value() == first_weight(self.basket_weights@, self.members.key_seq()[j]),
            decreases n - i,
        {
            let m = *self.members.key_at(i);
            let w = find_weight(&self.basket_weights, &m);
            if weights.len() < MAX_FEDERATION_MEMBERS as usize {
                weights.push((m, w));
            }
            i = i + 1;
        }
        self.active_basket = Some(basket);
        self.basket_weights = weights;
        self.events.push(Event::BasketReweighted { version });
        Ok(())
    }

    /// Deposit CBDC into the reserve and mint the same amount of XSU to the
    /// caller's seat. The CBDC must be in the basket in force.
    pub fn mint_xsu(&mut self, origin: Origin, cbdc: CbdcCode, cbdc_amount: Balance) -> (r: Result<(), Error>)
        requires
            old(self).wf(),
        ensures
            r is Err ==> r == Err::<(), Error>(Error::BadOrigin) || r == Err::<(), Error>(Error::Overflow) || r == Err::<(), Error>(Error::UnknownCbdc),
            final(self).wf(),
            final(self).seat_map() == old(self).seat_map(),
            final(self).clock() == old(self).clock(),
            final(self).proposal_map() == old(self).proposal_map(),
            final(self).queue() == old(self).queue(),
            final(self).member_map() == old(self).member_map(),
            final(self).weight_list() == old(self).weight_list(),
            r is Err ==> *final(self) == *old(self),
            r == Err::<(), Error>(Error::BadOrigin) <==> seat_of(old(self).seat_map(), origin) is None,
            seat_of(old(self).seat_map(), origin) matches Some(who) ==> {
                let listed = old(self).basket() matches Some(b) && exists|i: int|
                    0 <= i < b.entries@.len() && #[trigger] b.entries@[i].cbdc == cbdc;
                &&& (r == Err::<(), Error>(Error::UnknownCbdc) <==> !listed)
                &&& (r == Err::<(), Error>(Error::Overflow) <==> listed && old(self).issued() + cbdc_amount
                    > u128::MAX)
                &&& r is Ok ==> mint_effect(*old(self), *final(self), who, cbdc, cbdc_amount)
            },
    {
        let who = match self.council_member(&origin) {
            Some(m) => m,
            None => return Err(Error::BadOrigin),
        };
        let listed = match &self.active_basket {
            Some(b) => basket_lists(b, &cbdc),
            None => false,
        };
        if !listed {
            return Err(Error::UnknownCbdc);
        }
        let pool_bal = self.reserve_of(&cbdc);
        let member_bal = self.xsu_balance(&who);
        proof {
            self.lemma_entries_bounded(cbdc, who);
        }
        if self.xsu_issued > u128::MAX - cbdc_amount {
            return Err(Error::Overflow);
        }
        let ghost old_pool = self.reserve_pool;
        let ghost old_bal = self.xsu_balances;
        self.reserve_pool.insert(cbdc, pool_bal + cbdc_amount);
        self.xsu_issued = self.xsu_issued + cbdc_amount;
        self.xsu_balances.insert(who, member_bal + cbdc_amount);
        proof {
            lemma_table_sum_insert(old_pool, cbdc, (pool_bal + cbdc_amount) as Balance, self.reserve_pool);
            lemma_table_sum_insert(old_bal, who, (member_bal + cbdc_amount) as Balance, self.xsu_balances);
        }
        self.events.push(Event::XsuMinted { member: who, cbdc, cbdc_amount, xsu_minted: cbdc_amount });
        Ok(())
    }

    /// Burn XSU of the caller's seat and release the same amount of CBDC from
    /// the reserve.
    pub fn redeem_xsu(&mut self, origin: Origin, cbdc: CbdcCode, xsu_amount: Balance) -> (r: Result<(), Error>)
        requires
            old(self).wf(),
        ensures
            r is Err ==> r == Err::<(), Error>(Error::BadOrigin) || r == Err::<(), Error>(Error::InsufficientReserve) || r == Err::<(), Error>(Error::InsufficientXsu),
            final(self).wf(),
            final(self).seat_map() == old(self).seat_map(),
            final(self).clock() == old(self).clock(),
            final(self).proposal_map() == old(self).proposal_map(),
            final(self).queue() == old(self).queue(),
            final(self).member_map() == old(self).member_map(),
            final(self).weight_list() == old(self).weight_list(),
            r is Err ==> *final(self) == *old(self),
            r == Err::<(), Error>(Error::BadOrigin) <==> seat_of(old(self).seat_map(), origin) is None,
            seat_of(old(self).seat_map(), origin) matches Some(who) ==> {
                let bal = balance_of(old(self).balances(), who);
                let pool = balance_of(old(self).reserve(), cbdc);
                &&& (r == Err::<(), Error>(Error::InsufficientXsu) <==> bal < xsu_amount)
                &&& (r == Err::<(), Error>(Error::InsufficientReserve) <==> bal >= xsu_amount && pool
                    < xsu_amount)
                &&& r is Ok ==> redeem_effect(*old(self), *final(self), who, cbdc, xsu_amount)
            },
    {
        let who = match self.council_member(&origin) {
            Some(m) => m,
            None => return Err(Error::BadOrigin),
        };
        let member_bal = self.xsu_balance(&who);
        if member_bal < xsu_amount {
            return Err(Error::InsufficientXsu);
        }
        let pool_bal = self.reserve_of(&cbdc);
        if pool_bal < xsu_amount {
            return Err(Error::InsufficientReserve);
        }
        proof {
            self.lemma_entries_bounded(cbdc, who);
        }
        let ghost old_pool = self.reserve_pool;
        let ghost old_bal = self.xsu_balances;
        self.xsu_balances.insert(who, member_bal - xsu_amount);
        self.reserve_pool.insert(cbdc, pool_bal - xsu_amount);
        self.xsu_issued = self.xsu_issued - xsu_amount;
        proof {
            lemma_table_sum_insert(old_pool, cbdc, (pool_bal - xsu_amount) as Balance, self.reserve_pool);
            lemma_table_sum_insert(old_bal, who, (member_bal - xsu_amount) as Balance, self.xsu_balances);
        }
        self.events.push(Event::XsuRedeemed { member: who, cbdc, xsu_burned: xsu_amount, cbdc_amount: xsu_amount });
        Ok(())
    }

    /// Move XSU from the caller's seat to another member.
    pub fn book_clearing(&mut self, origin: Origin, to: MemberId, amount: XsuAmount) -> (r: Result<(), Error>)
        requires
            old(self).wf(),
        ensures
            r is Err ==> r == Err::<(), Error>(Error::BadOrigin) || r == Err::<(), Error>(Error::InsufficientXsu),
            final(self).wf(),
            final(self).seat_map() == old(self).seat_map(),
            final(self).issued() == old(self).issued(),
            final(self).reserve() == old(self).reserve(),
            final(self).clock() == old(self).clock(),
            final(self).proposal_map() == old(self).proposal_map(),
            final(self).queue() == old(self).queue(),
            final(self).member_map() == old(self).member_map(),
            r is Err ==> *final(self) == *old(self),
            r == Err::<(), Error>(Error::BadOrigin) <==> seat_of(old(self).seat_map(), origin) is None,
            seat_of(old(self).seat_map(), origin) matches Some(from) ==> {
                let fb = balance_of(old(self).balances(), from);
                let mid = old(self).balances().insert(from, (fb - amount.0) as Balance);
                &&& (r == Err::<(), Error>(Error::InsufficientXsu) <==> fb < amount.0)
                &&& r is Ok ==> {
                    &&& final(self).balances() == mid.insert(to, (balance_of(mid, to) + amount.0) as Balance)
                    &&& final(self).log() == old(self).log().push(Event::ClearingBooked { from, to, amount })
                }
            },
    {
        let from = match self.council_member(&origin) {
            Some(m) => m,
            None => return Err(Error::BadOrigin),
        };
        let from_bal = self.xsu_balance(&from);
        if from_bal < amount.0 {
            return Err(Error::InsufficientXsu);
        }
        proof {
            self.lemma_balance_bounded(from);
            self.lemma_balance_bounded(to);
            self.lemma_two_balances(from, to);
        }
        let ghost old_bal = self.xsu_balances;
        self.xsu_balances.insert(from, from_bal - amount.0);
        let ghost mid_bal = self.xsu_balances;
        let to_bal = self.xsu_balance(&to);
        self.xsu_balances.insert(to, to_bal + amount.0);
        proof {
            lemma_table_sum_insert(old_bal, from, (from_bal - amount.0) as Balance, mid_bal);
            lemma_table_sum_insert(mid_bal, to, (to_bal + amount.0) as Balance, self.xsu_balances);
        }
        self.events.push(Event::ClearingBooked { from, to, amount });
        Ok(())
    }

    /// Close a netting window (council-member origin).
    pub fn net_and_settle(&mut self, origin: Origin, window: u32) -> (r: Result<(), Error>)
        requires
            old(self).wf(),
        ensures
            r is Err ==> r == Err::<(), Error>(Error::BadOrigin),
            final(self).wf(),
            final(self).seat_map() == old(self).seat_map(),
            final(self).same_ledger(*old(self)),
            final(self).clock() == old(self).clock(),
            final(self).proposal_map() == old(self).proposal_map(),
            final(self).queue() == old(self).queue(),
            final(self).member_map() == old(self).member_map(),
            r is Err ==> *final(self) == *old(self),
            r is Err <==> seat_of(old(self).seat_map(), origin) is None,
            r is Err ==> r == Err::<(), Error>(Error::BadOrigin),
            r is Ok ==> final(self).log() == old(self).log().push(Event::NetSettled { window }),
    {
        match self.council_member(&origin) {
            Some(_) => {},
            None => return Err(Error::BadOrigin),
        }
        self.events.push(Event::NetSettled { window });
        Ok(())
    }

    /// The bytes the proof of reserve commits to: each reserve entry in
    /// ledger order (code, then balance as 16 little-endian bytes), then the
    /// XSU issued.
    pub closed spec fn reserve_bytes(self) -> Seq<u8> {
        reserve_entries_bytes(self.reserve_pool.key_seq(), self.reserve_pool.value_seq()) + le_bytes(
            self.xsu_issued as int,
            16,
        )
    }

    /// The proof of reserve commits to every reserve balance and to the XSU
    /// issued: its bytes hold, for each CBDC in the reserve, 19 bytes made
    /// of the code and the balance as 16 little-endian bytes, followed by the
    /// XSU issued as 16 little-endian bytes.
    pub proof fn lemma_reserve_bytes_commit(self)
        requires
            self.wf(),
        ensures
            self.reserve().dom().finite(),
            self.reserve_bytes().len() == 19 * self.reserve().dom().len() + 16,
            self.reserve_bytes().subrange(19 * (self.reserve().dom().len() as int), 19 * (self.reserve().dom().len() as int) + 16)
                == le_bytes(self.issued(), 16),
            forall|c: CbdcCode| #[trigger] self.reserve().contains_key(c) ==> exists|i: int| {
                &&& 0 <= i < self.reserve().dom().len()
                &&& #[trigger] self.reserve_bytes().subrange(19 * i, 19 * i + 3) == c@
                &&& self.reserve_bytes().subrange(19 * i + 3, 19 * i + 19) == le_bytes(self.reserve()[c] as int, 16)
            },
    {
        let ks = self.reserve_pool.key_seq();
        let vs = self.reserve_pool.value_seq();
        lemma_reserve_entries_layout(ks, vs);
        ks.unique_seq_to_set();
        crate::scale::lemma_le_bytes_len(self.xsu_issued as int, 16);
        let e = reserve_entries_bytes(ks, vs);
        let all = self.reserve_bytes();
        let n = ks.len() as int;
        assert(all == e + le_bytes(self.xsu_issued as int, 16));
        assert(all.subrange(19 * n, 19 * n + 16) =~= le_bytes(self.xsu_issued as int, 16));
        assert forall|c: CbdcCode| #[trigger] self.reserve().contains_key(c) implies exists|i: int| {
            &&& 0 <= i < self.reserve().dom().len()
            &&& #[trigger] self.reserve_bytes().subrange(19 * i, 19 * i + 3) == c@
            &&& self.reserve_bytes().subrange(19 * i + 3, 19 * i + 19) == le_bytes(self.reserve()[c] as int, 16)
        } by {
            assert(ks.contains(c));
            let i = ks.index_of(c);
            assert(ks[i] == c);
            assert(self.reserve_pool@[ks[i]] == vs[i]);
            assert(all.subrange(19 * i, 19 * i + 3) =~= e.subrange(19 * i, 19 * i + 3));
            assert(all.subrange(19 * i + 3, 19 * i + 19) =~= e.subrange(19 * i + 3, 19 * i + 19));
        }
    }

    /// The reserve digest: BLAKE2-256 of [`Pallet::reserve_bytes`].
    pub fn compute_reserve_digest(&self) -> (r: Hash32)
        ensures
            r@ == blake2_256_of(self.reserve_bytes()),
    {
        let mut encoded: Vec<u8> = Vec::new();
        let n = self.reserve_pool.size();
        let mut i: usize = 0;
        while i < n
            invariant
                i <= n == self.reserve_pool.key_seq().len() == self.reserve_pool.value_seq().len(),
                encoded@ == reserve_entries_bytes(
                    self.reserve_pool.key_seq().subrange(0, i as int),
                    self.reserve_pool.value_seq().subrange(0, i as int),
                ),
            decreases n - i,
        {
            let c = self.reserve_pool.key_at(i);
            let b = self.reserve_pool.value_at(i);
            let ghost before = encoded@;
            encoded.push(c[0]);
            encoded.push(c[1]);
            encoded.push(c[2]);
            push_le(&mut encoded, *b, 16);
            proof {
                let ks = self.reserve_pool.key_seq().subrange(0, i + 1);
                let vs = self.reserve_pool.value_seq().subrange(0, i + 1);
                assert(ks.drop_last() =~= self.reserve_pool.key_seq().subrange(0, i as int));
                assert(vs.drop_last() =~= self.reserve_pool.value_seq().subrange(0, i as int));
                assert(c@ =~= seq![c[0], c[1], c[2]]);
                assert(encoded@ =~= before + c@ + le_bytes(*b as int, 16));
            }
            i = i + 1;
        }
        proof {
            assert(self.reserve_pool.key_seq().subrange(0, i as int) =~= self.reserve_pool.key_seq());
            assert(self.reserve_pool.value_seq().subrange(0, i as int) =~= self.reserve_pool.value_seq());
        }
        push_le(&mut encoded, self.xsu_issued, 16);
        blake2_256(encoded.as_slice())
    }

    /// Publish a proof of reserve: the reserve digest, stamped with the
    /// current block.
    pub fn publish_proof_of_reserve(&mut self, origin: Origin) -> (r: Result<(), Error>)
        requires
            old(self).wf(),
        ensures
            r is Err ==> r == Err::<(), Error>(Error::BadOrigin),
            final(self).wf(),
            final(self).seat_map() == old(self).seat_map(),
            final(self).same_ledger(*old(self)),
            final(self).clock() == old(self).clock(),
            final(self).proposal_map() == old(self).proposal_map(),
            final(self).queue() == old(self).queue(),
            final(self).member_map() == old(self).member_map(),
            r is Err ==> *final(self) == *old(self),
            r is Err <==> seat_of(old(self).seat_map(), origin) is None,
            r is Err ==> r == Err::<(), Error>(Error::BadOrigin),
            r is Ok ==> (final(self).reserve_proof() matches Some((block, digest)) && block == old(self).clock()
                && digest@ == blake2_256_of(old(self).reserve_bytes())
                && final(self).log() == old(self).log().push(
                Event::ProofOfReservePublished { block, digest },
            )),
    {
        match self.council_member(&origin) {
            Some(_) => {},
            None => return Err(Error::BadOrigin),
        }
        let digest = self.compute_reserve_digest();
        let block = self.now;
        self.last_proof_of_reserve = Some((block, digest));
        self.events.push(Event::ProofOfReservePublished { block, digest });
        Ok(())
    }

    /// Carry out an open proposal and close it; `Unknown` if there is none.
    pub fn enact(&mut self, id: ProposalId) -> (r: Result<(), Error>)
        requires
            old(self).wf(),
        ensures
            final(self).wf(),
            final(self).seat_map() == old(self).seat_map(),
            final(self).same_ledger(*old(self)),
            final(self).clock() == old(self).clock(),
            final(self).queue() == old(self).queue(),
            r is Err <==> !old(self).proposal_map().contains_key(id),
            r is Err ==> *final(self) == *old(self) && r == Err::<(), Error>(Error::Unknown),
            r is Ok ==> enact_effect(*old(self), *final(self), id),
    {
        if !self.proposals.contains_key(&id) {
            return Err(Error::Unknown);
        }
        let p = match self.proposals.remove(&id) {
            Some(p) => p,
            None => return Err(Error::Unknown),
        };
        proof {
            assert forall|k: ProposalId| #[trigger] self.proposals@.contains_key(k) implies distinct_voters(
                self.proposals@[k].votes@,
            ) && self.proposals@[k].votes@.len() <= MAX_FEDERATION_MEMBERS && k < self.next_id by {
                assert(old(self).proposals@.contains_key(k));
            }
        }
        match p.action {
            FederationAction::SetParameter { .. } => {},
            FederationAction::AdmitMember { member } => {
                self.members.insert(member, true);
                self.events.push(Event::MembershipChanged { member, seated: true });
            },
            FederationAction::RemoveMember { member } => {
                self.members.insert(member, false);
                self.events.push(Event::MembershipChanged { member, seated: false });
            },
            FederationAction::Reweight { basket } => {
                let _ = self.do_set_basket(basket);
            },
            FederationAction::SuspendMember { member } => {
                self.members.insert(member, false);
                self.events.push(Event::MembershipChanged { member, seated: false });
            },
            FederationAction::RuntimeUpgrade { code_hash } => {
                self.events.push(Event::RuntimeUpgradeTriggered { code_hash });
            },
        }
        self.events.push(Event::Enacted { id });
        Ok(())
    }

    /// Start of block `n`: enact the proposal queued for it, if any, and
    /// drop it from the queue.
    pub fn on_initialize(&mut self, n: BlockNumber)
        requires
            old(self).wf(),
        ensures
            final(self).wf(),
            final(self).seat_map() == old(self).seat_map(),
            final(self).same_ledger(*old(self)),
            final(self).queue() == old(self).queue().remove(n),
            !old(self).queue().contains_key(n) ==> *final(self) == *old(self),
            old(self).queue().contains_key(n) && old(self).proposal_map().contains_key(old(self).queue()[n])
                ==> enact_effect(*old(self), *final(self), old(self).queue()[n]),
            old(self).queue().contains_key(n) && !old(self).proposal_map().contains_key(old(self).queue()[n]) ==> {
                &&& final(self).proposal_map() == old(self).proposal_map()
                &&& final(self).member_map() == old(self).member_map()
                &&& final(self).weight_list() == old(self).weight_list()
                &&& final(self).basket() == old(self).basket()
                &&& final(self).log() == old(self).log()
            },
    {
        if !self.queued.contains_key(&n) {
            proof {
                assert(old(self).queued@.remove(n) =~= old(self).queued@);
            }
            return;
        }
        match self.queued.remove(&n) {
            Some(id) => {
                let _ = self.enact(id);
            },
            None => {},
        }
    }

    /// The events emitted so far.
    pub fn events(&self) -> (r: &Vec<Event>)
        ensures
            r@ == self.log(),
    {
        &self.events
    }

    /// The current block.
    pub fn block_number(&self) -> (r: BlockNumber)
        ensures
            r == self.clock(),
    {
        self.now
    }

}

/// The sum of `m` over the keys `keys`.
pub open spec fn total_over<K>(keys: Seq<K>, m: Map<K, Balance>) -> int
    decreases keys.len(),
{
    if keys.len() == 0 {
        0
    } else {
        total_over(keys.drop_last(), m) + m[keys.last()]
    }
}

proof fn lemma_total_over_values<K>(keys: Seq<K>, vals: Seq<Balance>, m: Map<K, Balance>)
    requires
        keys.len() == vals.len(),
        forall|i: int| 0 <= i < keys.len() ==> #[trigger] m[keys[i]] == vals[i],
    ensures
        total_over(keys, m) == balance_sum(vals),
    decreases keys.len(),
{
    if keys.len() > 0 {
        let k2 = keys.drop_last();
        let v2 = vals.drop_last();
        assert forall|i: int| 0 <= i < k2.len() implies #[trigger] m[k2[i]] == v2[i] by {
            assert(m[keys[i]] == vals[i]);
        }
        lemma_total_over_values(k2, v2, m);
        assert(m[keys[keys.len() - 1]] == vals[vals.len() - 1]);
    }
}

/// Taking one key out of a listing takes its value out of the total.
proof fn lemma_total_over_remove<K>(keys: Seq<K>, m: Map<K, Balance>, i: int)
    requires
        0 <= i < keys.len(),
    ensures
        total_over(keys, m) == total_over(keys.remove(i), m) + m[keys[i]],
    decreases keys.len(),
{
    if i == keys.len() - 1 {
        assert(keys.remove(i) =~= keys.drop_last());
    } else {
        lemma_total_over_remove(keys.drop_last(), m, i);
        assert(keys.remove(i).drop_last() =~= keys.drop_last().remove(i));
        assert(keys.remove(i).last() == keys.last());
    }
}

/// Two duplicate-free listings of the same keys have the same total.
proof fn lemma_total_over_reorder<K>(a: Seq<K>, b: Seq<K>, m: Map<K, Balance>)
    requires
        a.no_duplicates(),
        b.no_duplicates(),
        a.to_set() == b.to_set(),
    ensures
        total_over(a, m) == total_over(b, m),
    decreases a.len(),
{
    if a.len() == 0 {
        if b.len() > 0 {
            assert(b.to_set().contains(b[0]));
        }
    } else {
        let x = a.last();
        assert(a.to_set().contains(x));
        assert(b.contains(x));
        let j = b.index_of(x);
        lemma_total_over_remove(b, m, j);
        let a2 = a.drop_last();
        let b2 = b.remove(j);
        assert forall|y: K| a2.to_set().contains(y) <==> b2.to_set().contains(y) by {
            if a2.contains(y) {
                let k = a2.index_of(y);
                assert(a[k] == y);
                assert(y != x);
                assert(a.to_set().contains(y));
                assert(b.contains(y));
                let l = b.index_of(y);
                assert(l != j);
                if l < j {
                    assert(b2[l] == y);
                } else {
                    assert(b2[l - 1] == y);
                }
            }
            if b2.contains(y) {
                let l = b2.index_of(y);
                assert(y != x) by {
                    if l < j {
                        assert(b[l] == y);
                    } else {
                        assert(b[l + 1] == y);
                    }
                }
                assert(b.contains(y)) by {
                    if l < j {
                        assert(b[l] == y);
                    } else {
                        assert(b[l + 1] == y);
                    }
                }
                assert(b.to_set().contains(y));
                assert(a.contains(y));
                let k = a.index_of(y);
                assert(k != a.len() - 1);
                assert(a2[k] == y);
            }
        }
        assert(a2.to_set() =~= b2.to_set());
        assert(b2.no_duplicates()) by {
            assert forall|p: int, q: int| 0 <= p < b2.len() && 0 <= q < b2.len() && p != q implies b2[p] != b2[q] by {
                let pp = if p < j { p } else { p + 1 };
                let qq = if q < j { q } else { q + 1 };
                assert(b2[p] == b[pp]);
                assert(b2[q] == b[qq]);
            }
        }
        lemma_total_over_reorder(a2, b2, m);
    }
}

/// XSU is fully backed: the units in circulation equal the sum of the CBDC
/// reserve over its currencies, and equal the sum of the members' XSU
/// holdings, whatever order the currencies or the holders are listed in.
/// Every operation keeps `wf`, so this holds in every state.
pub proof fn lemma_xsu_fully_backed(p: Pallet)
    requires
        p.wf(),
    ensures
        p.reserve().dom().finite(),
        p.balances().dom().finite(),
        forall|codes: Seq<CbdcCode>| codes.no_duplicates() && codes.to_set() == p.reserve().dom()
            ==> p.issued() == #[trigger] total_over(codes, p.reserve()),
        forall|holders: Seq<MemberId>| holders.no_duplicates() && holders.to_set() == p.balances().dom()
            ==> p.issued() == #[trigger] total_over(holders, p.balances()),
{
    let codes0 = p.reserve_pool.key_seq();
    assert forall|i: int| 0 <= i < codes0.len() implies #[trigger] p.reserve()[codes0[i]] == p.reserve_pool.value_seq()[i] by {
        assert(p.reserve_pool@.contains_key(codes0[i]));
    }
    lemma_total_over_values(codes0, p.reserve_pool.value_seq(), p.reserve());
    assert(codes0.to_set() =~= p.reserve().dom());
    assert forall|codes: Seq<CbdcCode>| codes.no_duplicates() && codes.to_set() == p.reserve().dom()
        implies p.issued() == #[trigger] total_over(codes, p.reserve()) by {
        lemma_total_over_reorder(codes0, codes, p.reserve());
    }
    let holders0 = p.xsu_balances.key_seq();
    assert forall|i: int| 0 <= i < holders0.len() implies #[trigger] p.balances()[holders0[i]] == p.xsu_balances.value_seq()[i] by {
        assert(p.xsu_balances@.contains_key(holders0[i]));
    }
    lemma_total_over_values(holders0, p.xsu_balances.value_seq(), p.balances());
    assert(holders0.to_set() =~= p.balances().dom());
    assert forall|holders: Seq<MemberId>| holders.no_duplicates() && holders.to_set() == p.balances().dom()
        implies p.issued() == #[trigger] total_over(holders, p.balances()) by {
        lemma_total_over_reorder(holders0, holders, p.balances());
    }
}

} // verus!
