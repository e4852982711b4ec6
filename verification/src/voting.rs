//! The dual-majority rule of the federation council: a proposal passes only
//! when the share of "aye" ballots by head count and the XSU-basket weight of
//! the "aye" members both reach the domain threshold.
use vstd::prelude::*;
use crate::perbill::{rational_parts, Perbill, BILLION};
use crate::primitives::{MemberId, Vote};
use crate::table::Table;

verus! {

/// No member casts two ballots.
pub open spec fn distinct_voters(votes: Seq<(MemberId, Vote)>) -> bool {
    forall|i: int, j: int| 0 <= i < j < votes.len() ==> #[trigger] votes[i].0 != #[trigger] votes[j].0
}

/// The number of "aye" ballots.
pub open spec fn aye_count(votes: Seq<(MemberId, Vote)>) -> nat
    decreases votes.len(),
{
    if votes.len() == 0 {
        0
    } else {
        aye_count(votes.drop_last()) + if votes.last().1 == Vote::Aye { 1nat } else { 0nat }
    }
}

/// The basket weight of a member, zero when it has none.
pub open spec fn member_weight(basket: Map<MemberId, Perbill>, m: MemberId) -> int {
    if basket.contains_key(m) {
        basket[m].value()
    } else {
        0
    }
}

/// The basket weight of the "aye" members, added up and capped at one whole.
pub open spec fn aye_weight(votes: Seq<(MemberId, Vote)>, basket: Map<MemberId, Perbill>) -> int
    decreases votes.len(),
{
    if votes.len() == 0 {
        0
    } else {
        let prev = aye_weight(votes.drop_last(), basket);
        if votes.last().1 == Vote::Aye {
            let s = prev + member_weight(basket, votes.last().0);
            if s > BILLION {
                BILLION as int
            } else {
                s
            }
        } else {
            prev
        }
    }
}

/// Both axes reach the threshold: the "aye" share of the ballots (over at
/// least one ballot, rounded down to parts per billion) and the "aye"
/// basket weight.
pub open spec fn dual_majority(votes: Seq<(MemberId, Vote)>, basket: Map<MemberId, Perbill>, threshold: int) -> bool {
    let total = if votes.len() == 0 { 1int } else { votes.len() as int };
    &&& rational_parts(aye_count(votes) as int, total) >= threshold
    &&& aye_weight(votes, basket) >= threshold
}

proof fn lemma_aye_count_le(votes: Seq<(MemberId, Vote)>)
    ensures
        aye_count(votes) <= votes.len(),
    decreases votes.len(),
{
    if votes.len() > 0 {
        lemma_aye_count_le(votes.drop_last());
    }
}

/// Whether a proposal passes the dual-majority rule.
pub fn passes_dual_majority(votes: &[(MemberId, Vote)], basket: &Table<MemberId, Perbill>, threshold: Perbill) -> (r: bool)
    requires
        votes@.len() <= u32::MAX,
        distinct_voters(votes@),
    ensures
        r == dual_majority(votes@, basket@, threshold.value()),
{
    let total = votes.len() as u32;
    let mut ayes: u32 = 0;
    let mut weight = Perbill::zero();
    let mut i: usize = 0;
    while i < votes.len()
        invariant
            i <= votes@.len() <= u32::MAX,
            ayes == aye_count(votes@.subrange(0, i as int)),
            weight.value() == aye_weight(votes@.subrange(0, i as int), basket@),
        decreases votes@.len() - i,
    {
        proof {
            let s = votes@.subrange(0, i + 1);
            assert(s.drop_last() =~= votes@.subrange(0, i as int));
            lemma_aye_count_le(votes@.subrange(0, i as int));
        }
        match votes[i].1 {
            Vote::Aye => {
                ayes = ayes + 1;
                let w = match basket.get(&votes[i].0) {
                    Some(w) => *w,
                    None => Perbill::zero(),
                };
                weight = weight.saturating_add(w);
            },
            _ => {},
        }
        i = i + 1;
    }
    proof {
        assert(votes@.subrange(0, i as int) =~= votes@);
    }
    let denom: u32 = if total == 0 { 1 } else { total };
    let by_count = Perbill::from_rational(ayes, denom).ge(&threshold);
    let by_weight = weight.ge(&threshold);
    by_count && by_weight
}

/// With no ballots cast, a proposal passes only under a zero threshold.
pub proof fn lemma_no_votes_no_pass(basket: Map<MemberId, Perbill>, threshold: int)
    requires
        dual_majority(Seq::empty(), basket, threshold),
    ensures
        threshold <= 0,
{
}

/// The "aye" basket weight stays within one whole.
proof fn lemma_aye_weight_bounds(votes: Seq<(MemberId, Vote)>, basket: Map<MemberId, Perbill>)
    ensures
        0 <= aye_weight(votes, basket) <= BILLION,
    decreases votes.len(),
{
    if votes.len() > 0 {
        lemma_aye_weight_bounds(votes.drop_last(), basket);
        if basket.contains_key(votes.last().0) {
            crate::perbill::lemma_value_nonneg(basket[votes.last().0]);
        }
    }
}

/// Turning ballot `k` into "aye" raises neither count nor weight less.
proof fn lemma_aye_raise(votes: Seq<(MemberId, Vote)>, k: int, basket: Map<MemberId, Perbill>)
    requires
        0 <= k < votes.len(),
    ensures
        aye_count(votes.update(k, (votes[k].0, Vote::Aye))) >= aye_count(votes),
        aye_weight(votes.update(k, (votes[k].0, Vote::Aye)), basket) >= aye_weight(votes, basket),
    decreases votes.len(),
{
    let u = votes.update(k, (votes[k].0, Vote::Aye));
    lemma_aye_weight_bounds(votes.drop_last(), basket);
    if basket.contains_key(votes.last().0) {
        crate::perbill::lemma_value_nonneg(basket[votes.last().0]);
    }
    if k == votes.len() - 1 {
        assert(u.drop_last() =~= votes.drop_last());
    } else {
        lemma_aye_raise(votes.drop_last(), k, basket);
        assert(u.drop_last() =~= votes.drop_last().update(k, (votes[k].0, Vote::Aye)));
        assert(u.last() == votes.last());
    }
}

/// An "aye" never hurts: if a proposal passes, it still passes when any one
/// of its ballots is turned into "aye".
pub proof fn lemma_aye_never_hurts(votes: Seq<(MemberId, Vote)>, k: int, basket: Map<MemberId, Perbill>, threshold: int)
    requires
        0 <= k < votes.len(),
        dual_majority(votes, basket, threshold),
    ensures
        dual_majority(votes.update(k, (votes[k].0, Vote::Aye)), basket, threshold),
{
    let u = votes.update(k, (votes[k].0, Vote::Aye));
    lemma_aye_raise(votes, k, basket);
    lemma_aye_count_le(votes);
    lemma_aye_count_le(u);
    let n = votes.len() as int;
    let a = aye_count(votes) as int;
    let b = aye_count(u) as int;
    assert(rational_parts(a, n) <= rational_parts(b, n)) by {
        assert((a * BILLION) / n <= (b * BILLION) / n) by (nonlinear_arith)
            requires
                0 <= a <= b,
                n > 0,
        {
            assert(a * BILLION <= b * BILLION);
            vstd::arithmetic::div_mod::lemma_div_is_ordered(a * BILLION, b * BILLION, n);
        }
    }
}

} // verus!
