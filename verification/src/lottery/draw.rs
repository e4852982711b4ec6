//! The arithmetic and hashing of a draw: prize shares in parts per million,
//! seed commitments and their XOR, the draw entropy, the ordering of the
//! entry set, and the selection of distinct winners by hash probing.
use vstd::prelude::*;
use crate::hashing::{blake2_256, blake2_256_of};
use crate::primitives::{AccountId, Hash32, Nullifier, TaxKind};
use crate::scale::{le_bytes, le_value, push_le, pow256, lemma_le_value_bound, lemma_pow256_values};
use crate::lottery::types::{DrawId, DrawState, PrizeTier};

verus! {

/// One whole, in parts per million.
pub const PPM: u32 = 1_000_000;

/// Most entries a draw holds.
pub const MAX_ENTRIES: u32 = 4096;

/// Hash probes per winner slot.
pub const MAX_PROBES: u32 = 8;

/// Most winners recorded per tier.
pub const MAX_TIER_WINNERS: u32 = 1024;

/// `value * ppm / 10^6`, the product saturating at `u128::MAX` first.
pub open spec fn ppm_of(value: u128, ppm: u32) -> int {
    let p = value * ppm;
    (if p > u128::MAX { u128::MAX as int } else { p }) / (PPM as int)
}

/// `value * ppm / 10^6`, the product saturating at `u128::MAX` first.
pub fn mul_div_ppm(value: u128, ppm: u32) -> (r: u128)
    ensures
        r == ppm_of(value, ppm),
{
    let p = match value.checked_mul(ppm as u128) {
        Some(p) => p,
        None => u128::MAX,
    };
    p / (PPM as u128)
}

/// The tax kind numbered `k` (0 income, 1 wage, 2 interest, 3 value added,
/// 4 withholding, 5 other).
pub open spec fn kind_of(k: u8) -> Option<TaxKind> {
    if k == 0 {
        Some(TaxKind::Income)
    } else if k == 1 {
        Some(TaxKind::Wage)
    } else if k == 2 {
        Some(TaxKind::Interest)
    } else if k == 3 {
        Some(TaxKind::ValueAdded)
    } else if k == 4 {
        Some(TaxKind::Withholding)
    } else if k == 5 {
        Some(TaxKind::Other)
    } else {
        None
    }
}

/// The tax kind numbered `k`.
pub fn tax_kind_from_u8(k: u8) -> (r: Option<TaxKind>)
    ensures
        r == kind_of(k),
{
    match k {
        0 => Some(TaxKind::Income),
        1 => Some(TaxKind::Wage),
        2 => Some(TaxKind::Interest),
        3 => Some(TaxKind::ValueAdded),
        4 => Some(TaxKind::Withholding),
        5 => Some(TaxKind::Other),
        _ => None,
    }
}

/// The coarse phase of a draw.
#[derive(Clone, Copy, Debug, PartialEq, Eq)]
pub enum Phase {
    Open,
    Drawing,
    Settled,
}

/// The phase a draw state belongs to.
pub open spec fn phase_of(s: DrawState) -> Phase {
    match s {
        DrawState::Pending | DrawState::Open => Phase::Open,
        DrawState::Drawing | DrawState::Drawn => Phase::Drawing,
        DrawState::Settled | DrawState::Cancelled => Phase::Settled,
    }
}

/// The phase a draw state belongs to.
pub fn phase(s: DrawState) -> (r: Phase)
    ensures
        r == phase_of(s),
{
    match s {
        DrawState::Pending | DrawState::Open => Phase::Open,
        DrawState::Drawing | DrawState::Drawn => Phase::Drawing,
        DrawState::Settled | DrawState::Cancelled => Phase::Settled,
    }
}

/// The byte-wise XOR of two hashes.
pub open spec fn xor32(a: Seq<u8>, b: Seq<u8>) -> Seq<u8> {
    Seq::new(32, |i: int| a[i] ^ b[i])
}

/// XOR `seed` into `acc`.
pub fn xor_into(acc: &mut Hash32, seed: &Hash32)
    ensures
        final(acc)@ == xor32(old(acc)@, seed@),
{
    let mut i: usize = 0;
    while i < 32
        invariant
            i <= 32,
            forall|k: int| 0 <= k < i ==> acc@[k] == old(acc)@[k] ^ seed@[k],
            forall|k: int| i <= k < 32 ==> acc@[k] == old(acc)@[k],
        decreases 32 - i,
    {
        acc[i] = acc[i] ^ seed[i];
        i = i + 1;
    }
    assert(acc@ =~= xor32(old(acc)@, seed@));
}

/// Append a hash's bytes.
fn push_hash(out: &mut Vec<u8>, h: &[u8; 32])
    ensures
        final(out)@ == old(out)@ + h@,
{
    let mut i: usize = 0;
    while i < 32
        invariant
            i <= 32,
            out@ == old(out)@ + h@.subrange(0, i as int),
        decreases 32 - i,
    {
        out.push(h[i]);
        i = i + 1;
        assert(out@ =~= old(out)@ + h@.subrange(0, i as int));
    }
    assert(h@.subrange(0, 32) =~= h@);
}

/// The commitment to a seed: BLAKE2-256 of the seed then the salt.
pub open spec fn commitment_of(seed: Hash32, salt: Hash32) -> Seq<u8> {
    blake2_256_of(seed@ + salt@)
}

/// The commitment to a seed under a salt.
pub fn commit_hash(seed: &Hash32, salt: &Hash32) -> (r: Hash32)
    ensures
        r@ == commitment_of(*seed, *salt),
{
    let mut buf: Vec<u8> = Vec::new();
    push_hash(&mut buf, seed);
    push_hash(&mut buf, salt);
    blake2_256(buf.as_slice())
}

/// The key a prize payout is recorded under: BLAKE2-256 of the invoice hash
/// then the claim nullifier.
pub open spec fn receipt_key_of(invoice_hash: Hash32, nullifier: Nullifier) -> Seq<u8> {
    blake2_256_of(invoice_hash@ + nullifier@)
}

/// The key a prize payout is recorded under.
pub fn receipt_key(invoice_hash: &Hash32, nullifier: &Nullifier) -> (r: Hash32)
    ensures
        r@ == receipt_key_of(*invoice_hash, *nullifier),
{
    let mut buf: Vec<u8> = Vec::new();
    push_hash(&mut buf, invoice_hash);
    push_hash(&mut buf, nullifier);
    blake2_256(buf.as_slice())
}

/// The ASCII bytes of `ferrum-fallback`.
pub open spec fn fallback_tag() -> Seq<u8> {
    seq![102u8, 101, 114, 114, 117, 109, 45, 102, 97, 108, 108, 98, 97, 99, 107]
}

/// The ASCII bytes of `ferrum-draw`.
pub open spec fn draw_tag() -> Seq<u8> {
    seq![102u8, 101, 114, 114, 117, 109, 45, 100, 114, 97, 119]
}

fn push_fallback_tag(out: &mut Vec<u8>)
    ensures
        final(out)@ == old(out)@ + fallback_tag(),
{
    out.push(102);
    out.push(101);
    out.push(114);
    out.push(114);
    out.push(117);
    out.push(109);
    out.push(45);
    out.push(102);
    out.push(97);
    out.push(108);
    out.push(108);
    out.push(98);
    out.push(97);
    out.push(99);
    out.push(107);
    assert(out@ =~= old(out)@ + fallback_tag());
}

fn push_draw_tag(out: &mut Vec<u8>)
    ensures
        final(out)@ == old(out)@ + draw_tag(),
{
    out.push(102);
    out.push(101);
    out.push(114);
    out.push(114);
    out.push(117);
    out.push(109);
    out.push(45);
    out.push(100);
    out.push(114);
    out.push(97);
    out.push(119);
    assert(out@ =~= old(out)@ + draw_tag());
}

/// The seed that stands in for a committer who never revealed:
/// BLAKE2-256 of `ferrum-fallback`, the draw id (8 bytes little-endian) and
/// the account.
pub open spec fn fallback_seed_of(draw_id: DrawId, who: AccountId) -> Seq<u8> {
    blake2_256_of(fallback_tag() + le_bytes(draw_id as int, 8) + who@)
}

/// The stand-in seed of a non-revealer.
pub fn fallback_seed(draw_id: DrawId, who: &AccountId) -> (r: Hash32)
    ensures
        r@ == fallback_seed_of(draw_id, *who),
{
    let mut buf: Vec<u8> = Vec::new();
    push_fallback_tag(&mut buf);
    push_le(&mut buf, draw_id as u128, 8);
    push_hash(&mut buf, who);
    blake2_256(buf.as_slice())
}

/// The entropy of a draw: BLAKE2-256 of the XOR of the seeds, the hash of
/// the finalize block and the draw id (8 bytes little-endian).
pub open spec fn entropy_of(xored: Hash32, block_hash: Hash32, draw_id: DrawId) -> Seq<u8> {
    blake2_256_of(xored@ + block_hash@ + le_bytes(draw_id as int, 8))
}

/// The entropy of a draw.
pub fn compute_entropy(xored: &Hash32, block_hash: &Hash32, draw_id: DrawId) -> (r: Hash32)
    ensures
        r@ == entropy_of(*xored, *block_hash, draw_id),
{
    let mut buf: Vec<u8> = Vec::new();
    push_hash(&mut buf, xored);
    push_hash(&mut buf, block_hash);
    push_le(&mut buf, draw_id as u128, 8);
    blake2_256(buf.as_slice())
}

/// The bytes hashed to place the `slot`-th probe of a tier.
pub open spec fn probe_bytes(r: Hash32, draw_id: DrawId, tier_id: u8, slot: u64) -> Seq<u8> {
    r@ + draw_tag() + le_bytes(draw_id as int, 8) + seq![tier_id] + le_bytes(slot as int, 8)
}

/// The entry index the `slot`-th probe of a tier lands on: the first 16
/// bytes of the probe hash, little-endian, modulo the entry count.
pub open spec fn draw_index_of(r: Hash32, draw_id: DrawId, tier_id: u8, slot: u64, count: u64) -> int {
    (le_value(blake2_256_of(probe_bytes(r, draw_id, tier_id, slot)).subrange(0, 16)) as int) % (count as int)
}

/// The 16 low bytes of a hash, read little-endian.
fn low_u128(h: &Hash32) -> (r: u128)
    ensures
        r == le_value(h@.subrange(0, 16)),
{
    let mut v: u128 = 0;
    let mut j: usize = 16;
    proof {
        assert(h@.subrange(16, 16) =~= Seq::<u8>::empty());
        reveal_with_fuel(pow256, 17);
    }
    while j > 0
        invariant
            j <= 16,
            v == le_value(h@.subrange(j as int, 16)),
            v < pow256((16 - j) as nat),
            pow256(15) == 0x1000000000000000000000000000000,
        decreases j,
    {
        proof {
            lemma_pow256_mono_le((16 - j) as nat, 15);
        }
        j = j - 1;
        v = v * 256 + h[j] as u128;
        proof {
            let s = h@.subrange(j as int, 16);
            assert(s.drop_first() =~= h@.subrange(j + 1, 16));
            lemma_le_value_bound(s);
        }
    }
    v
}

proof fn lemma_pow256_mono_le(a: nat, b: nat)
    requires
        a <= b,
    ensures
        pow256(a) <= pow256(b),
    decreases b,
{
    if a < b {
        lemma_pow256_mono_le(a, (b - 1) as nat);
        lemma_pow256_ge1((b - 1) as nat);
    }
}

proof fn lemma_pow256_ge1(n: nat)
    ensures
        pow256(n) >= 1,
    decreases n,
{
    if n > 0 {
        lemma_pow256_ge1((n - 1) as nat);
    }
}

/// The entry index a probe lands on.
pub fn draw_index(r: &Hash32, draw_id: DrawId, tier_id: u8, slot: u64, count: u64) -> (idx: u64)
    requires
        count > 0,
    ensures
        idx == draw_index_of(*r, draw_id, tier_id, slot, count),
        idx < count,
{
    let mut buf: Vec<u8> = Vec::new();
    push_hash(&mut buf, r);
    push_draw_tag(&mut buf);
    push_le(&mut buf, draw_id as u128, 8);
    buf.push(tier_id);
    push_le(&mut buf, slot as u128, 8);
    proof {
        assert(buf@ =~= probe_bytes(*r, draw_id, tier_id, slot));
    }
    let h = blake2_256(buf.as_slice());
    let v = low_u128(&h);
    (v % (count as u128)) as u64
}

} // verus!
