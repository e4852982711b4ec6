//! The entry set of a draw: ordered canonically before it is sealed, and
//! the winners of each tier picked from it by hash probing, never the same
//! entry twice.
use vstd::prelude::*;
use crate::primitives::Hash32;
use crate::scale::pow256;
use crate::lottery::draw::{draw_index, draw_index_of, MAX_PROBES, MAX_TIER_WINNERS};
use crate::lottery::types::{DrawId, PrizeTier};

verus! {

broadcast use vstd::seq_lib::group_to_multiset_ensures;

/// The number whose big-endian bytes are `s`; on hashes of one length this
/// orders as `Ord` on byte arrays (lexicographic) does.
pub open spec fn be_value(s: Seq<u8>) -> nat
    decreases s.len(),
{
    if s.len() == 0 {
        0
    } else {
        (s[0] * pow256((s.len() - 1) as nat) + be_value(s.drop_first())) as nat
    }
}

proof fn lemma_be_bound(s: Seq<u8>)
    ensures
        be_value(s) < pow256(s.len()),
    decreases s.len(),
{
    if s.len() > 0 {
        lemma_be_bound(s.drop_first());
        let p = pow256((s.len() - 1) as nat);
        assert(s[0] * p + be_value(s.drop_first()) < 256 * p) by (nonlinear_arith)
            requires
                0 <= s[0] < 256,
                be_value(s.drop_first()) < p,
        ;
    }
}

/// The first differing byte decides the order.
proof fn lemma_be_first_diff(s: Seq<u8>, t: Seq<u8>, k: int)
    requires
        s.len() == t.len(),
        0 <= k < s.len(),
        s.subrange(0, k) == t.subrange(0, k),
        s[k] < t[k],
    ensures
        be_value(s) < be_value(t),
    decreases k,
{
    let p = pow256((s.len() - 1) as nat);
    if k == 0 {
        lemma_be_bound(s.drop_first());
        assert(s[0] * p + be_value(s.drop_first()) < t[0] * p + be_value(t.drop_first())) by (nonlinear_arith)
            requires
                s[0] < t[0],
                be_value(s.drop_first()) < p,
                be_value(t.drop_first()) >= 0,
        ;
    } else {
        assert(s[0] == s.subrange(0, k)[0]);
        assert(t[0] == t.subrange(0, k)[0]);
        assert(s.drop_first().subrange(0, k - 1) =~= s.subrange(0, k).drop_first());
        assert(t.drop_first().subrange(0, k - 1) =~= t.subrange(0, k).drop_first());
        lemma_be_first_diff(s.drop_first(), t.drop_first(), k - 1);
    }
}

/// Whether hash `a` orders strictly before hash `b`.
pub fn hash_lt(a: &Hash32, b: &Hash32) -> (r: bool)
    ensures
        r == (be_value(a@) < be_value(b@)),
{
    let mut i: usize = 0;
    while i < 32
        invariant
            i <= 32,
            a@.len() == 32 && b@.len() == 32,
            a@.subrange(0, i as int) == b@.subrange(0, i as int),
        decreases 32 - i,
    {
        if a[i] != b[i] {
            proof {
                if a@[i as int] < b@[i as int] {
                    lemma_be_first_diff(a@, b@, i as int);
                } else {
                    lemma_be_first_diff(b@, a@, i as int);
                }
            }
            return a[i] < b[i];
        }
        proof {
            assert(a@.subrange(0, i + 1) =~= a@.subrange(0, i as int).push(a@[i as int]));
            assert(b@.subrange(0, i + 1) =~= b@.subrange(0, i as int).push(b@[i as int]));
        }
        i = i + 1;
    }
    assert(a@ =~= a@.subrange(0, 32));
    assert(b@ =~= b@.subrange(0, 32));
    false
}

/// Hashes in non-decreasing order.
pub open spec fn sorted_hashes(s: Seq<Hash32>) -> bool {
    forall|a: int, b: int| 0 <= a < b < s.len() ==> be_value(#[trigger] s[a]@) <= be_value(#[trigger] s[b]@)
}

proof fn lemma_swap_multiset(s: Seq<Hash32>, i: int, j: int)
    requires
        0 <= i < s.len(),
        0 <= j < s.len(),
        i != j,
    ensures
        s.update(i, s[j]).update(j, s[i]).to_multiset() == s.to_multiset(),
{
    broadcast use vstd::multiset::group_multiset_properties;

    let s1 = s.update(i, s[j]);
    assert(s1[j] == s[j]);
    assert(s1.to_multiset() == s.to_multiset().insert(s[j]).remove(s[i]));
    assert(s1.update(j, s[i]).to_multiset() == s1.to_multiset().insert(s[i]).remove(s[j]));
    assert(s.to_multiset().insert(s[j]).remove(s[i]).insert(s[i]).remove(s[j]) =~= s.to_multiset());
}

/// Sort hashes into non-decreasing order (as `sort_unstable` on byte
/// arrays does); the result holds the same hashes.
pub fn sort_hashes(v: &mut Vec<Hash32>)
    ensures
        sorted_hashes(final(v)@),
        final(v)@.to_multiset() == old(v)@.to_multiset(),
        final(v)@.len() == old(v)@.len(),
{
    let n = v.len();
    if n < 2 {
        proof {
            assert(sorted_hashes(v@));
        }
        return;
    }
    let mut i: usize = 1;
    while i < n
        invariant
            1 <= i <= n == v@.len(),
            v@.to_multiset() == old(v)@.to_multiset(),
            forall|a: int, b: int| 0 <= a < b < i ==> be_value(#[trigger] v@[a]@) <= be_value(#[trigger] v@[b]@),
        decreases n - i,
    {
        let mut j: usize = i;
        while j > 0 && hash_lt(&v[j], &v[j - 1])
            invariant
                0 <= j <= i < n == v@.len(),
                v@.to_multiset() == old(v)@.to_multiset(),
                forall|a: int, b: int| 0 <= a < b < j ==> be_value(#[trigger] v@[a]@) <= be_value(#[trigger] v@[b]@),
                forall|a: int, b: int| j < a < b <= i ==> be_value(#[trigger] v@[a]@) <= be_value(#[trigger] v@[b]@),
                forall|a: int, b: int| 0 <= a < j && j < b <= i ==> be_value(#[trigger] v@[a]@) <= be_value(#[trigger] v@[b]@),
                forall|b: int| j < b <= i ==> be_value(v@[j as int]@) < be_value(#[trigger] v@[b]@),
            decreases j,
        {
            let x = v[j];
            let y = v[j - 1];
            let ghost before = v@;
            v[j - 1] = x;
            v[j] = y;
            proof {
                assert(v@ == before.update(j - 1, before[j as int]).update(j as int, before[j - 1]));
                lemma_swap_multiset(before, j - 1, j as int);
            }
            j = j - 1;
        }
        proof {
            assert forall|a: int, b: int| 0 <= a < b < i + 1 implies be_value(#[trigger] v@[a]@) <= be_value(
                #[trigger] v@[b]@,
            ) by {
                if b == j && a < j {
                    assert(be_value(v@[a]@) <= be_value(v@[j - 1]@));
                }
            }
        }
        i = i + 1;
    }
}

/// The state of a tier's selection after some probes: the entry indices
/// taken, in order, and the winners recorded.
pub struct ProbeState {
    pub used: Seq<u64>,
    pub chosen: Seq<Hash32>,
}

/// The selection of a tier after `k` probes: a probe that lands on an index
/// not taken yet takes it and records its entry (while fewer than the cap
/// are recorded); probing stops once `n` winners are recorded.
pub open spec fn probe_state(r: Hash32, draw_id: DrawId, tier_id: u8, entries: Seq<Hash32>, n: int, k: nat) -> ProbeState
    decreases k,
{
    if k == 0 {
        ProbeState { used: Seq::empty(), chosen: Seq::empty() }
    } else {
        let prev = probe_state(r, draw_id, tier_id, entries, n, (k - 1) as nat);
        if prev.chosen.len() >= n {
            prev
        } else {
            let idx = draw_index_of(r, draw_id, tier_id, (k - 1) as u64, entries.len() as u64) as u64;
            if prev.used.contains(idx) {
                prev
            } else {
                ProbeState {
                    used: prev.used.push(idx),
                    chosen: if prev.chosen.len() < MAX_TIER_WINNERS {
                        prev.chosen.push(entries[idx as int])
                    } else {
                        prev.chosen
                    },
                }
            }
        }
    }
}

/// How many winners a tier looks for.
pub open spec fn tier_target(tier: PrizeTier, count: int) -> int {
    if tier.winners < count { tier.winners as int } else { count }
}

/// How many probes a tier may make.
pub open spec fn probe_budget(n: int) -> int {
    let m = n * MAX_PROBES;
    let m1 = if m > u64::MAX { u64::MAX as int } else { m };
    if m1 + MAX_PROBES > u64::MAX { u64::MAX as int } else { m1 + MAX_PROBES }
}

/// The winners of a tier.
pub open spec fn tier_winners(r: Hash32, draw_id: DrawId, tier: PrizeTier, entries: Seq<Hash32>) -> Seq<Hash32> {
    let n = tier_target(tier, entries.len() as int);
    probe_state(r, draw_id, tier.tier_id, entries, n, probe_budget(n) as nat).chosen
}

/// Winners are entries taken at distinct indices, in the order taken.
pub open spec fn picks_distinct_entries(st: ProbeState, entries: Seq<Hash32>) -> bool {
    &&& st.used.no_duplicates()
    &&& forall|i: int| 0 <= i < st.used.len() ==> #[trigger] st.used[i] < entries.len()
    &&& st.chosen.len() <= st.used.len()
    &&& forall|i: int| 0 <= i < st.chosen.len() ==> #[trigger] st.chosen[i] == entries[st.used[i] as int]
}

proof fn lemma_probe_invariant(r: Hash32, draw_id: DrawId, tier_id: u8, entries: Seq<Hash32>, n: int, k: nat)
    requires
        entries.len() > 0,
        entries.len() <= u64::MAX,
    ensures
        picks_distinct_entries(probe_state(r, draw_id, tier_id, entries, n, k), entries),
        probe_state(r, draw_id, tier_id, entries, n, k).chosen.len() <= if n > 0 { n } else { 0 },
        probe_state(r, draw_id, tier_id, entries, n, k).chosen.len() <= MAX_TIER_WINNERS,
        probe_state(r, draw_id, tier_id, entries, n, k).chosen.len() == probe_state(r, draw_id, tier_id, entries, n, k).used.len()
            || probe_state(r, draw_id, tier_id, entries, n, k).chosen.len() == MAX_TIER_WINNERS,
    decreases k,
{
    if k > 0 {
        lemma_probe_invariant(r, draw_id, tier_id, entries, n, (k - 1) as nat);
        let prev = probe_state(r, draw_id, tier_id, entries, n, (k - 1) as nat);
        let cnt = entries.len() as u64;
        if prev.chosen.len() < n {
            let idx = draw_index_of(r, draw_id, tier_id, (k - 1) as u64, cnt) as u64;
            assert(0 <= draw_index_of(r, draw_id, tier_id, (k - 1) as u64, cnt) < cnt);
            if !prev.used.contains(idx) {
                let st = probe_state(r, draw_id, tier_id, entries, n, k);
                assert(st.used == prev.used.push(idx));
                assert forall|a: int, b: int| 0 <= a < st.used.len() && 0 <= b < st.used.len() && a != b implies st.used[a]
                    != st.used[b] by {
                    if a == prev.used.len() as int {
                        assert(st.used[b] == prev.used[b]);
                    } else if b == prev.used.len() as int {
                        assert(st.used[a] == prev.used[a]);
                    }
                }
            }
        }
    }
}

/// Every tier's winners are entries at distinct indices, at most the tier's
/// target (its winner count, or the entry count if smaller); with distinct
/// entries no entry wins twice in a tier.
pub proof fn lemma_tier_winners_distinct(r: Hash32, draw_id: DrawId, tier: PrizeTier, entries: Seq<Hash32>)
    requires
        entries.len() > 0,
        entries.len() <= u64::MAX,
        entries.no_duplicates(),
    ensures
        tier_winners(r, draw_id, tier, entries).no_duplicates(),
        tier_winners(r, draw_id, tier, entries).len() <= tier_target(tier, entries.len() as int),
        forall|i: int| 0 <= i < tier_winners(r, draw_id, tier, entries).len() ==> entries.contains(
            #[trigger] tier_winners(r, draw_id, tier, entries)[i],
        ),
{
    let n = tier_target(tier, entries.len() as int);
    let st = probe_state(r, draw_id, tier.tier_id, entries, n, probe_budget(n) as nat);
    lemma_probe_invariant(r, draw_id, tier.tier_id, entries, n, probe_budget(n) as nat);
    assert forall|a: int, b: int| 0 <= a < st.chosen.len() && 0 <= b < st.chosen.len() && a != b implies st.chosen[a]
        != st.chosen[b] by {
        assert(st.used[a] != st.used[b]);
    }
    assert forall|i: int| 0 <= i < st.chosen.len() implies entries.contains(#[trigger] st.chosen[i]) by {
        assert(entries[st.used[i] as int] == st.chosen[i]);
    }
}

fn contains_u64(v: &Vec<u64>, x: u64) -> (r: bool)
    ensures
        r == v@.contains(x),
{
    let mut i: usize = 0;
    while i < v.len()
        invariant
            i <= v@.len(),
            forall|k: int| 0 <= k < i ==> v@[k] != x,
        decreases v@.len() - i,
    {
        if v[i] == x {
            return true;
        }
        i = i + 1;
    }
    false
}

/// Pick the winners of one tier from the entry set.
pub fn select_tier_winners(entries: &Vec<Hash32>, r: &Hash32, draw_id: DrawId, tier: &PrizeTier) -> (chosen: Vec<Hash32>)
    requires
        entries@.len() > 0,
        entries@.len() <= u64::MAX,
    ensures
        chosen@ == tier_winners(*r, draw_id, *tier, entries@),
{
    let count = entries.len() as u64;
    let n: u64 = if (tier.winners as u64) < count { tier.winners as u64 } else { count };
    let m: u64 = match n.checked_mul(MAX_PROBES as u64) {
        Some(x) => x,
        None => u64::MAX,
    };
    let max_probes: u64 = match m.checked_add(MAX_PROBES as u64) {
        Some(x) => x,
        None => u64::MAX,
    };
    let ghost budget = probe_budget(n as int);
    let mut chosen: Vec<Hash32> = Vec::new();
    let mut used: Vec<u64> = Vec::new();
    let mut slot: u64 = 0;
    proof {
        lemma_probe_invariant(*r, draw_id, tier.tier_id, entries@, n as int, 0);
    }
    while (chosen.len() as u64) < n && slot < max_probes
        invariant
            count == entries@.len() > 0,
            n as int == tier_target(*tier, count as int),
            max_probes as int == budget,
            budget == probe_budget(n as int),
            slot <= max_probes,
            used@ == probe_state(*r, draw_id, tier.tier_id, entries@, n as int, slot as nat).used,
            chosen@ == probe_state(*r, draw_id, tier.tier_id, entries@, n as int, slot as nat).chosen,
            chosen@.len() <= n,
        decreases max_probes - slot,
    {
        proof {
            lemma_probe_invariant(*r, draw_id, tier.tier_id, entries@, n as int, slot as nat);
        }
        let idx = draw_index(r, draw_id, tier.tier_id, slot, count);
        let ghost prev = probe_state(*r, draw_id, tier.tier_id, entries@, n as int, slot as nat);
        if !contains_u64(&used, idx) {
            used.push(idx);
            if chosen.len() < MAX_TIER_WINNERS as usize {
                let len: usize = entries.len();
                assert(idx < len);
                let iu = idx as usize;
                assert(iu as int == idx as int);
                let e = entries[iu];
                chosen.push(e);
                proof {
                    assert(e == entries@[idx as int]);
                }
            }
        }
        slot = slot + 1;
        proof {
            let next = probe_state(*r, draw_id, tier.tier_id, entries@, n as int, slot as nat);
            assert((slot - 1) as u64 == slot - 1);
            assert(next == (if prev.used.contains(idx) { prev } else {
                ProbeState {
                    used: prev.used.push(idx),
                    chosen: if prev.chosen.len() < MAX_TIER_WINNERS {
                        prev.chosen.push(entries@[idx as int])
                    } else {
                        prev.chosen
                    },
                }
            }));
            lemma_probe_invariant(*r, draw_id, tier.tier_id, entries@, n as int, slot as nat);
        }
    }
    proof {
        lemma_probe_stable(*r, draw_id, tier.tier_id, entries@, n as int, slot as nat, budget as nat);
    }
    chosen
}

/// Once probing has stopped, more probe budget changes nothing.
proof fn lemma_probe_stable(r: Hash32, draw_id: DrawId, tier_id: u8, entries: Seq<Hash32>, n: int, k: nat, m: nat)
    requires
        k <= m,
        k == m || probe_state(r, draw_id, tier_id, entries, n, k).chosen.len() >= n,
    ensures
        probe_state(r, draw_id, tier_id, entries, n, m) == probe_state(r, draw_id, tier_id, entries, n, k),
    decreases m - k,
{
    if k < m {
        lemma_probe_stable(r, draw_id, tier_id, entries, n, k, (m - 1) as nat);
    }
}

} // verus!
