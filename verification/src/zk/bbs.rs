//! Hash-commitment selective disclosure over verifiable credentials.
//!
//! The issuer commits to the ordered list of claim hashes with BLAKE2b; a
//! holder reveals a subset of the claim hashes, at their original positions,
//! together with a commitment to the hidden ones, and the verifier checks the
//! layout and, when the issuer commitment is known, recomputes it. A one-time
//! nullifier bound to the credential and the verifier prevents replay.
use vstd::prelude::*;
use crate::primitives::{Commitment, Hash32, Nullifier};
use crate::zk::{blake2b_32, blake2b_32_of};
use std::collections::BTreeSet;

verus! {

/// The hash of one claim; plaintext claim values never reach this module.
pub type AttributeHash = Hash32;

/// The bytes of a list of 32-byte hashes, one after the other.
pub open spec fn concat_hashes(s: Seq<[u8; 32]>) -> Seq<u8>
    decreases s.len(),
{
    if s.len() == 0 {
        Seq::empty()
    } else {
        concat_hashes(s.drop_last()) + s.last()@
    }
}

/// The issuer's commitment over claim hashes in their order.
pub open spec fn attributes_commitment(attributes: Seq<AttributeHash>) -> Seq<u8> {
    blake2b_32_of(concat_hashes(attributes))
}

/// Append the bytes of `a` to `out`.
fn append_hash(out: &mut Vec<u8>, a: &[u8; 32])
    ensures
        final(out)@ == old(out)@ + a@,
{
    let mut i: usize = 0;
    while i < 32
        invariant
            i <= 32,
            out@ == old(out)@ + a@.subrange(0, i as int),
        decreases 32 - i,
    {
        out.push(a[i]);
        i = i + 1;
        assert(out@ =~= old(out)@ + a@.subrange(0, i as int));
    }
    assert(a@.subrange(0, 32) =~= a@);
}

/// Commit to a list of claim hashes. The caller sorts them into a stable
/// order first, so that the commitment can be reproduced.
pub fn commit_attributes(attributes: &[AttributeHash]) -> (r: Commitment)
    ensures
        r@ == attributes_commitment(attributes@),
{
    let mut buf: Vec<u8> = Vec::new();
    let mut i: usize = 0;
    while i < attributes.len()
        invariant
            i <= attributes@.len(),
            buf@ == concat_hashes(attributes@.subrange(0, i as int)),
        decreases attributes@.len() - i,
    {
        append_hash(&mut buf, &attributes[i]);
        proof {
            let s = attributes@.subrange(0, i + 1);
            assert(s.drop_last() =~= attributes@.subrange(0, i as int));
        }
        i = i + 1;
    }
    assert(attributes@.subrange(0, attributes@.len() as int) =~= attributes@);
    blake2b_32(buf.as_slice())
}

/// A selective-disclosure presentation: the revealed claim hashes with their
/// original positions, a commitment to the hidden claims, and a one-time
/// nullifier.
#[derive(Clone, Debug, PartialEq, Eq)]
pub struct Disclosure {
    /// Revealed claims: `(original position, claim hash)`.
    pub revealed: Vec<(u32, AttributeHash)>,
    /// Commitment to the hidden claims' hashes, in original order.
    pub hidden_commitment: Commitment,
    /// One-time nullifier against replay of this presentation.
    pub nullifier: Nullifier,
}

/// The positions of the revealed claims.
pub open spec fn revealed_indices(d: Disclosure) -> Seq<u32> {
    d.revealed@.map_values(|e: (u32, AttributeHash)| e.0)
}

/// The hashes of the revealed claims.
pub open spec fn revealed_hashes(d: Disclosure) -> Seq<AttributeHash> {
    d.revealed@.map_values(|e: (u32, AttributeHash)| e.1)
}

/// The commitment the presentation derives: revealed hashes in order, then
/// the hidden commitment.
pub open spec fn derived_commitment(d: Disclosure) -> Seq<u8> {
    blake2b_32_of(concat_hashes(revealed_hashes(d)) + d.hidden_commitment@)
}

/// Whether a 32-byte value is all zeros.
pub open spec fn all_zero(a: [u8; 32]) -> bool {
    forall|i: int| 0 <= i < 32 ==> a@[i] == 0
}

/// When a presentation is consistent: every revealed position is in range
/// and appears once; a hidden commitment is present (not all zeros) whenever
/// some claim stays hidden; and the derived commitment equals the expected
/// issuer commitment when one is given.
pub open spec fn disclosure_valid(d: Disclosure, total_attributes: u32, expected: Option<Commitment>) -> bool {
    &&& forall|i: int| 0 <= i < d.revealed@.len() ==> #[trigger] d.revealed@[i].0 < total_attributes
    &&& revealed_indices(d).no_duplicates()
    &&& !(total_attributes > d.revealed@.len() && all_zero(d.hidden_commitment))
    &&& (expected matches Some(e) ==> derived_commitment(d) == e@)
}

fn is_all_zero(a: &[u8; 32]) -> (r: bool)
    ensures
        r == all_zero(*a),
{
    let mut i: usize = 0;
    while i < 32
        invariant
            i <= 32,
            forall|k: int| 0 <= k < i ==> a@[k] == 0,
        decreases 32 - i,
    {
        if a[i] != 0 {
            return false;
        }
        i = i + 1;
    }
    true
}

/// Distinct positions below `total` number at most `total`.
proof fn lemma_distinct_below(s: Seq<u32>, total: u32)
    requires
        s.no_duplicates(),
        forall|i: int| 0 <= i < s.len() ==> s[i] < total,
    ensures
        s.len() <= total,
{
    let t = s.map_values(|x: u32| x as int);
    assert(t.no_duplicates()) by {
        assert forall|i: int, j: int| 0 <= i < t.len() && 0 <= j < t.len() && i != j implies t[i]
            != t[j] by {
            assert(t[i] == s[i] as int);
            assert(t[j] == s[j] as int);
            assert(s[i] != s[j]);
        }
    }
    t.unique_seq_to_set();
    vstd::set_lib::lemma_int_range(0, total as int);
    assert forall|x: int| t.to_set().contains(x) implies vstd::set_lib::set_int_range(
        0,
        total as int,
    ).contains(x) by {
        assert(t.contains(x));
        let k = choose|k: int| 0 <= k < t.len() && t[k] == x;
        assert(t[k] == s[k] as int);
    }
    assert(t.to_set().subset_of(vstd::set_lib::set_int_range(0, total as int)));
    vstd::set_lib::lemma_len_subset(t.to_set(), vstd::set_lib::set_int_range(0, total as int));
}

/// Attribute indices are totally ordered as the integers are.
proof fn lemma_indices_ordered()
    ensures
        vstd::laws_cmp::obeys_cmp::<u32>(),
{
    broadcast use vstd::laws_cmp::group_laws_cmp;
}

/// Check a presentation against the issuer's commitment: see
/// [`disclosure_valid`]. The check is structural; it cannot re-derive the
/// issuer's signature over all claims without the hidden ones.
pub fn verify_disclosure(disclosure: &Disclosure, total_attributes: u32, expected_issuer_commitment: Option<&Commitment>) -> (r: bool)
    ensures
        r == disclosure_valid(
            *disclosure,
            total_attributes,
            match expected_issuer_commitment {
                Some(e) => Some(*e),
                None => None,
            },
        ),
{
    let ghost idx = revealed_indices(*disclosure);
    let mut seen: BTreeSet<u32> = BTreeSet::new();
    let mut i: usize = 0;
    while i < disclosure.revealed.len()
        invariant
            i <= disclosure.revealed@.len(),
            idx == revealed_indices(*disclosure),
            seen@ == idx.subrange(0, i as int).to_set(),
            idx.subrange(0, i as int).no_duplicates(),
            forall|k: int| 0 <= k < i ==> #[trigger] disclosure.revealed@[k].0 < total_attributes,
        decreases disclosure.revealed@.len() - i,
    {
        let x = disclosure.revealed[i].0;
        if x >= total_attributes {
            return false;
        }
        proof {
            lemma_indices_ordered();
        }
        let ghost before = seen@;
        if !seen.insert(x) {
            proof {
                let pre = idx.subrange(0, i as int);
                assert(pre.to_set().contains(x));
                let p = pre.index_of(x);
                assert(idx[p] == idx[i as int]);
            }
            return false;
        }
        proof {
            let pre = idx.subrange(0, i as int);
            let cur = idx.subrange(0, i + 1);
            assert(cur =~= pre.push(x));
            assert(!pre.contains(x));
            assert(seen@ == before.insert(x));
            assert(cur[i as int] == x);
            assert forall|y: u32| #[trigger] seen@.contains(y) == cur.contains(y) by {
                assert(before.contains(y) == pre.contains(y));
                if y == x {
                    assert(cur[i as int] == y);
                }
                if pre.contains(y) {
                    let k = pre.index_of(y);
                    assert(cur[k] == y);
                }
                if cur.contains(y) {
                    let k = cur.index_of(y);
                    if k < i {
                        assert(pre[k] == y);
                    }
                }
            }
            assert(seen@ =~= cur.to_set());
            assert(cur.no_duplicates()) by {
                assert forall|a: int, b: int| 0 <= a < i + 1 && 0 <= b < i + 1 && a != b implies
                    #[trigger] cur[a] != #[trigger] cur[b] by {
                    if a == i {
                        assert(pre.contains(pre[b]));
                    } else if b == i {
                        assert(pre.contains(pre[a]));
                    } else {
                        assert(pre[a] != pre[b]);
                    }
                }
            }
        }
        i = i + 1;
    }
    proof {
        assert(idx.subrange(0, i as int) =~= idx);
        lemma_distinct_below(idx, total_attributes);
    }
    let hidden_count: usize = total_attributes as usize - disclosure.revealed.len();
    if hidden_count > 0 && is_all_zero(&disclosure.hidden_commitment) {
        return false;
    }
    match expected_issuer_commitment {
        Some(expected) => {
            let mut buf: Vec<u8> = Vec::new();
            let mut j: usize = 0;
            while j < disclosure.revealed.len()
                invariant
                    j <= disclosure.revealed@.len(),
                    buf@ == concat_hashes(revealed_hashes(*disclosure).subrange(0, j as int)),
                decreases disclosure.revealed@.len() - j,
            {
                append_hash(&mut buf, &disclosure.revealed[j].1);
                proof {
                    let s = revealed_hashes(*disclosure).subrange(0, j + 1);
                    assert(s.drop_last() =~= revealed_hashes(*disclosure).subrange(0, j as int));
                }
                j = j + 1;
            }
            proof {
                assert(revealed_hashes(*disclosure).subrange(0, j as int) =~= revealed_hashes(
                    *disclosure,
                ));
            }
            append_hash(&mut buf, &disclosure.hidden_commitment);
            let derived = blake2b_32(buf.as_slice());
            crate::table::bytes_eq(&derived, expected)
        },
        None => true,
    }
}

/// The nullifier binding a credential to a verifier.
pub open spec fn nullifier_of(payload_hash: Hash32, verifier_tag: Seq<u8>) -> Seq<u8> {
    blake2b_32_of(payload_hash@ + verifier_tag)
}

/// Derive the one-time nullifier binding a credential hash to a verifier
/// identifier, so the same credential cannot be presented to the same
/// verifier twice.
pub fn derive_nullifier(payload_hash: &Hash32, verifier_tag: &[u8]) -> (r: Nullifier)
    ensures
        r@ == nullifier_of(*payload_hash, verifier_tag@),
{
    let mut buf: Vec<u8> = Vec::new();
    append_hash(&mut buf, payload_hash);
    let mut i: usize = 0;
    while i < verifier_tag.len()
        invariant
            i <= verifier_tag@.len(),
            buf@ == payload_hash@ + verifier_tag@.subrange(0, i as int),
        decreases verifier_tag@.len() - i,
    {
        buf.push(verifier_tag[i]);
        i = i + 1;
        assert(buf@ =~= payload_hash@ + verifier_tag@.subrange(0, i as int));
    }
    assert(verifier_tag@.subrange(0, verifier_tag@.len() as int) =~= verifier_tag@);
    blake2b_32(buf.as_slice())
}

} // verus!
