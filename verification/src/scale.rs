//! The SCALE wire format of GRANDPA finality proofs, as relayers submit them:
//! fixed-width integers little-endian, hashes, keys and signatures as raw
//! bytes, and the precommit list behind a compact length prefix. Decoding
//! reads a prefix of the input (trailing bytes are left alone) and refuses
//! non-canonical length prefixes and lists longer than the bound.
use vstd::prelude::*;
use crate::primitives::{GrandpaFinalityProof, SignedPrecommit, MAX_AUTHORITIES};

verus! {

/// Most precommits a finality proof may carry: one per authority.
pub const MAX_PRECOMMITS: u32 = MAX_AUTHORITIES;

/// `256^n`.
pub open spec fn pow256(n: nat) -> nat
    decreases n,
{
    if n == 0 {
        1
    } else {
        256 * pow256((n - 1) as nat)
    }
}

/// The `n` low bytes of `x`, least significant first.
pub open spec fn le_bytes(x: int, n: nat) -> Seq<u8>
    decreases n,
{
    if n == 0 {
        Seq::empty()
    } else {
        seq![(x % 256) as u8] + le_bytes(x / 256, (n - 1) as nat)
    }
}

/// The number whose little-endian bytes are `s`.
pub open spec fn le_value(s: Seq<u8>) -> nat
    decreases s.len(),
{
    if s.len() == 0 {
        0
    } else {
        (s[0] + 256 * le_value(s.drop_first())) as nat
    }
}

/// The SCALE compact encoding of a `u32` length.
pub open spec fn compact_u32(n: nat) -> Seq<u8> {
    if n < 64 {
        seq![(n * 4) as u8]
    } else if n < 16384 {
        le_bytes((n * 4 + 1) as int, 2)
    } else if n < 0x4000_0000 {
        le_bytes((n * 4 + 2) as int, 4)
    } else {
        seq![3u8] + le_bytes(n as int, 4)
    }
}

/// The encoding of one signed precommit (132 bytes).
pub open spec fn precommit_bytes(sp: SignedPrecommit) -> Seq<u8> {
    sp.target_hash@ + le_bytes(sp.target_number as int, 4) + sp.authority@ + sp.signature@
}

/// The encodings of a list of precommits, one after the other.
pub open spec fn precommits_bytes(s: Seq<SignedPrecommit>) -> Seq<u8>
    decreases s.len(),
{
    if s.len() == 0 {
        Seq::empty()
    } else {
        precommits_bytes(s.drop_last()) + precommit_bytes(s.last())
    }
}

/// What a finality proof denotes: its fields, the precommits as a sequence.
pub struct FinalityProofView {
    pub round: u64,
    pub set_id: u64,
    pub target_hash: [u8; 32],
    pub target_number: u32,
    pub precommits: Seq<SignedPrecommit>,
}

impl View for GrandpaFinalityProof {
    type V = FinalityProofView;

    open spec fn view(&self) -> FinalityProofView {
        FinalityProofView {
            round: self.round,
            set_id: self.set_id,
            target_hash: self.target_hash,
            target_number: self.target_number,
            precommits: self.precommits@,
        }
    }
}

/// The precommit list fits the bound of the type.
pub open spec fn proof_in_bounds(p: FinalityProofView) -> bool {
    p.precommits.len() <= MAX_PRECOMMITS
}

/// The SCALE encoding of a finality proof.
pub open spec fn finality_proof_bytes(p: FinalityProofView) -> Seq<u8> {
    le_bytes(p.round as int, 8) + le_bytes(p.set_id as int, 8) + p.target_hash@ + le_bytes(
        p.target_number as int,
        4,
    ) + compact_u32(p.precommits.len()) + precommits_bytes(p.precommits)
}

/// `a` is a prefix of `b`.
pub open spec fn starts_with(b: Seq<u8>, a: Seq<u8>) -> bool {
    a.len() <= b.len() && b.subrange(0, a.len() as int) == a
}

pub(crate) proof fn lemma_le_bytes_len(x: int, n: nat)
    ensures
        le_bytes(x, n).len() == n,
    decreases n,
{
    if n > 0 {
        lemma_le_bytes_len(x / 256, (n - 1) as nat);
    }
}

proof fn lemma_pow256_pos(n: nat)
    ensures
        pow256(n) >= 1,
    decreases n,
{
    if n > 0 {
        lemma_pow256_pos((n - 1) as nat);
    }
}

pub(crate) proof fn lemma_le_value_bound(s: Seq<u8>)
    ensures
        le_value(s) < pow256(s.len()),
    decreases s.len(),
{
    if s.len() > 0 {
        lemma_le_value_bound(s.drop_first());
        let r = le_value(s.drop_first());
        let p = pow256((s.len() - 1) as nat);
        assert(s[0] + 256 * r < 256 * p) by (nonlinear_arith)
            requires
                r < p,
                0 <= s[0] < 256,
        ;
    }
}

/// Reading back the low bytes of a number that fits gives the number.
pub(crate) proof fn lemma_le_value_of_bytes(x: int, n: nat)
    requires
        0 <= x < pow256(n),
    ensures
        le_value(le_bytes(x, n)) == x,
    decreases n,
{
    lemma_le_bytes_len(x, n);
    if n > 0 {
        let p = pow256((n - 1) as nat);
        assert(x / 256 < p && 0 <= x / 256) by (nonlinear_arith)
            requires
                0 <= x < 256 * p,
        ;
        lemma_le_value_of_bytes(x / 256, (n - 1) as nat);
        let s = le_bytes(x, n);
        assert(s.drop_first() =~= le_bytes(x / 256, (n - 1) as nat));
        assert(x == x % 256 + 256 * (x / 256)) by (nonlinear_arith)
            requires
                x >= 0,
        ;
    } else {
        assert(pow256(0) == 1);
    }
}

/// Writing back the value of some bytes gives the bytes.
pub(crate) proof fn lemma_bytes_of_le_value(s: Seq<u8>)
    ensures
        le_bytes(le_value(s) as int, s.len()) == s,
    decreases s.len(),
{
    if s.len() > 0 {
        lemma_bytes_of_le_value(s.drop_first());
        let r = le_value(s.drop_first()) as int;
        let v = le_value(s) as int;
        assert(v % 256 == s[0] && v / 256 == r) by (nonlinear_arith)
            requires
                v == s[0] + 256 * r,
                0 <= s[0] < 256,
                r >= 0,
        ;
        assert(le_bytes(v, s.len()) =~= s);
    } else {
        assert(le_bytes(le_value(s) as int, 0) =~= s);
    }
}

proof fn lemma_precommits_bytes_len(s: Seq<SignedPrecommit>)
    ensures
        precommits_bytes(s).len() == 132 * s.len(),
    decreases s.len(),
{
    if s.len() > 0 {
        lemma_precommits_bytes_len(s.drop_last());
        lemma_le_bytes_len(s.last().target_number as int, 4);
    }
}

/// Append the `n` low bytes of `x`, least significant first.
pub(crate) fn push_le(out: &mut Vec<u8>, x: u128, n: usize)
    requires
        n <= 16,
    ensures
        final(out)@ == old(out)@ + le_bytes(x as int, n as nat),
{
    let mut v: u128 = x;
    let mut i: usize = 0;
    while i < n
        invariant
            i <= n,
            out@ + le_bytes(v as int, (n - i) as nat) == old(out)@ + le_bytes(x as int, n as nat),
        decreases n - i,
    {
        let ghost before = out@;
        out.push((v % 256) as u8);
        proof {
            assert(le_bytes(v as int, (n - i) as nat) == seq![(v % 256) as u8] + le_bytes(
                (v / 256) as int,
                (n - i - 1) as nat,
            ));
            assert(out@ + le_bytes((v / 256) as int, (n - i - 1) as nat) =~= before + le_bytes(
                v as int,
                (n - i) as nat,
            ));
        }
        v = v / 256;
        i = i + 1;
    }
    assert(le_bytes(v as int, 0) =~= Seq::<u8>::empty());
    assert(out@ =~= out@ + le_bytes(v as int, 0));
}

/// The little-endian number held by `b[pos..pos + n]`.
fn read_le(b: &[u8], pos: usize, n: usize) -> (r: u64)
    requires
        n <= 8,
        pos + n <= b@.len(),
    ensures
        r == le_value(b@.subrange(pos as int, pos + n)),
{
    let blen = b.len();
    let mut v: u64 = 0;
    let mut j: usize = n;
    proof {
        assert(b@.subrange(pos + n, pos + n) =~= Seq::<u8>::empty());
        reveal_with_fuel(pow256, 9);
    }
    while j > 0
        invariant
            j <= n <= 8,
            pos + n <= b@.len() == blen,
            v == le_value(b@.subrange(pos + j, pos + n)),
            v < pow256((n - j) as nat),
            pow256(7) == 0x100_0000_0000_0000,
        decreases j,
    {
        proof {
            lemma_pow256_mono((n - j) as nat, 7);
        }
        let ghost old_v = v;
        j = j - 1;
        v = v * 256 + b[pos + j] as u64;
        proof {
            let s = b@.subrange(pos + j, pos + n);
            assert(s.drop_first() =~= b@.subrange(pos + j + 1, pos + n));
            assert(s[0] == b@[pos + j]);
            lemma_le_value_bound(s);
            assert(s.len() == n - j);
        }
    }
    v
}

proof fn lemma_pow256_mono(a: nat, b: nat)
    requires
        a <= b,
    ensures
        pow256(a) <= pow256(b),
    decreases b,
{
    if a < b {
        lemma_pow256_mono(a, (b - 1) as nat);
        lemma_pow256_pos((b - 1) as nat);
    }
}

/// The 32 bytes `b[pos..pos + 32]` as an array.
fn read_bytes32(b: &[u8], pos: usize) -> (r: [u8; 32])
    requires
        pos + 32 <= b@.len(),
    ensures
        r@ == b@.subrange(pos as int, pos + 32),
{
    let blen = b.len();
    let mut a: [u8; 32] = [0u8; 32];
    let mut i: usize = 0;
    while i < 32
        invariant
            i <= 32,
            pos + 32 <= b@.len() == blen,
            forall|k: int| 0 <= k < i ==> a@[k] == b@[pos + k],
        decreases 32 - i,
    {
        a[i] = b[pos + i];
        i = i + 1;
    }
    assert(a@ =~= b@.subrange(pos as int, pos + 32));
    a
}

/// The 64 bytes `b[pos..pos + 64]` as an array.
fn read_bytes64(b: &[u8], pos: usize) -> (r: [u8; 64])
    requires
        pos + 64 <= b@.len(),
    ensures
        r@ == b@.subrange(pos as int, pos + 64),
{
    let blen = b.len();
    let mut a: [u8; 64] = [0u8; 64];
    let mut i: usize = 0;
    while i < 64
        invariant
            i <= 64,
            pos + 64 <= b@.len() == blen,
            forall|k: int| 0 <= k < i ==> a@[k] == b@[pos + k],
        decreases 64 - i,
    {
        a[i] = b[pos + i];
        i = i + 1;
    }
    assert(a@ =~= b@.subrange(pos as int, pos + 64));
    a
}

/// Append the raw bytes of an array.
fn push_bytes(out: &mut Vec<u8>, a: &[u8])
    ensures
        final(out)@ == old(out)@ + a@,
{
    let mut i: usize = 0;
    while i < a.len()
        invariant
            i <= a@.len(),
            out@ == old(out)@ + a@.subrange(0, i as int),
        decreases a@.len() - i,
    {
        out.push(a[i]);
        i = i + 1;
        assert(out@ =~= old(out)@ + a@.subrange(0, i as int));
    }
    assert(a@.subrange(0, a@.len() as int) =~= a@);
}

/// The SCALE encoding of a finality proof.
pub fn encode_finality_proof(p: &GrandpaFinalityProof) -> (r: Vec<u8>)
    requires
        proof_in_bounds(p@),
    ensures
        r@ == finality_proof_bytes(p@),
{
    let mut out: Vec<u8> = Vec::new();
    push_le(&mut out, p.round as u128, 8);
    push_le(&mut out, p.set_id as u128, 8);
    push_bytes(&mut out, &p.target_hash);
    push_le(&mut out, p.target_number as u128, 4);
    let n = p.precommits.len();
    if n < 64 {
        out.push((n * 4) as u8);
        assert(out@ =~= le_bytes(p.round as int, 8) + le_bytes(p.set_id as int, 8) + p.target_hash@
            + le_bytes(p.target_number as int, 4) + compact_u32(n as nat));
    } else {
        let ghost before = out@;
        push_le(&mut out, (n * 4 + 1) as u128, 2);
        assert(out@ =~= le_bytes(p.round as int, 8) + le_bytes(p.set_id as int, 8) + p.target_hash@
            + le_bytes(p.target_number as int, 4) + compact_u32(n as nat));
    }
    let ghost header = out@;
    let mut i: usize = 0;
    while i < n
        invariant
            i <= n == p.precommits@.len(),
            out@ == header + precommits_bytes(p.precommits@.subrange(0, i as int)),
        decreases n - i,
    {
        let sp = &p.precommits[i];
        let ghost before = out@;
        push_bytes(&mut out, &sp.target_hash);
        push_le(&mut out, sp.target_number as u128, 4);
        push_bytes(&mut out, &sp.authority);
        push_bytes(&mut out, &sp.signature);
        proof {
            let s = p.precommits@.subrange(0, i + 1);
            assert(s.drop_last() =~= p.precommits@.subrange(0, i as int));
            assert(s.last() == *sp);
            assert(out@ =~= header + precommits_bytes(s));
        }
        i = i + 1;
    }
    assert(p.precommits@.subrange(0, n as int) =~= p.precommits@);
    assert(out@ =~= finality_proof_bytes(p@));
    out
}

pub(crate) proof fn lemma_pow256_values()
    ensures
        pow256(2) == 0x1_0000,
        pow256(4) == 0x1_0000_0000,
        pow256(7) == 0x100_0000_0000_0000,
        pow256(8) == 0x1_0000_0000_0000_0000,
{
    reveal_with_fuel(pow256, 9);
}

proof fn lemma_array32_eq(a: [u8; 32], b: [u8; 32])
    requires
        a@ == b@,
    ensures
        a == b,
{
    broadcast use vstd::array::group_array_axioms;

    assert(a =~= b);
}

proof fn lemma_array64_eq(a: [u8; 64], b: [u8; 64])
    requires
        a@ == b@,
    ensures
        a == b,
{
    broadcast use vstd::array::group_array_axioms;

    assert(a =~= b);
}

/// The encodings of the first `k` precommits open the encoding of the list.
proof fn lemma_precommits_prefix(s: Seq<SignedPrecommit>, k: int)
    requires
        0 <= k <= s.len(),
    ensures
        precommits_bytes(s).subrange(0, 132 * k) == precommits_bytes(s.subrange(0, k)),
        precommits_bytes(s).len() == 132 * s.len(),
    decreases s.len(),
{
    lemma_precommits_bytes_len(s);
    lemma_precommits_bytes_len(s.subrange(0, k));
    if k == s.len() {
        assert(s.subrange(0, k) =~= s);
    } else {
        lemma_precommits_prefix(s.drop_last(), k);
        assert(s.drop_last().subrange(0, k) =~= s.subrange(0, k));
        lemma_precommits_bytes_len(s.drop_last());
        assert(precommits_bytes(s).subrange(0, 132 * k) =~= precommits_bytes(s.drop_last()).subrange(
            0,
            132 * k,
        ));
    }
}

/// The layout of an encoded finality proof.
proof fn lemma_proof_layout(v: FinalityProofView)
    requires
        proof_in_bounds(v),
    ensures
        ({
            let e = finality_proof_bytes(v);
            let n = v.precommits.len();
            let c: int = if n < 64 { 1 } else { 2 };
            &&& e.len() == 52 + c + 132 * n
            &&& e.subrange(0, 8) == le_bytes(v.round as int, 8)
            &&& e.subrange(8, 16) == le_bytes(v.set_id as int, 8)
            &&& e.subrange(16, 48) == v.target_hash@
            &&& e.subrange(48, 52) == le_bytes(v.target_number as int, 4)
            &&& e.subrange(52, 52 + c) == compact_u32(n)
            &&& e.subrange(52 + c, e.len() as int) == precommits_bytes(v.precommits)
        }),
{
    let n = v.precommits.len();
    lemma_le_bytes_len(v.round as int, 8);
    lemma_le_bytes_len(v.set_id as int, 8);
    lemma_le_bytes_len(v.target_number as int, 4);
    lemma_le_bytes_len((n * 4 + 1) as int, 2);
    lemma_precommits_bytes_len(v.precommits);
    let e = finality_proof_bytes(v);
    let c: int = if n < 64 { 1 } else { 2 };
    assert(e.subrange(0, 8) =~= le_bytes(v.round as int, 8));
    assert(e.subrange(8, 16) =~= le_bytes(v.set_id as int, 8));
    assert(e.subrange(16, 48) =~= v.target_hash@);
    assert(e.subrange(48, 52) =~= le_bytes(v.target_number as int, 4));
    assert(e.subrange(52, 52 + c) =~= compact_u32(n));
    assert(e.subrange(52 + c, e.len() as int) =~= precommits_bytes(v.precommits));
}

proof fn lemma_precommit_bytes_injective(a: SignedPrecommit, b: SignedPrecommit)
    requires
        precommit_bytes(a) == precommit_bytes(b),
    ensures
        a == b,
{
    lemma_le_bytes_len(a.target_number as int, 4);
    lemma_le_bytes_len(b.target_number as int, 4);
    let pa = precommit_bytes(a);
    let pb = precommit_bytes(b);
    assert(pa.subrange(0, 32) =~= a.target_hash@);
    assert(pb.subrange(0, 32) =~= b.target_hash@);
    assert(pa.subrange(32, 36) =~= le_bytes(a.target_number as int, 4));
    assert(pb.subrange(32, 36) =~= le_bytes(b.target_number as int, 4));
    assert(pa.subrange(36, 68) =~= a.authority@);
    assert(pb.subrange(36, 68) =~= b.authority@);
    assert(pa.subrange(68, 132) =~= a.signature@);
    assert(pb.subrange(68, 132) =~= b.signature@);
    lemma_pow256_values();
    lemma_le_value_of_bytes(a.target_number as int, 4);
    lemma_le_value_of_bytes(b.target_number as int, 4);
    lemma_array32_eq(a.target_hash, b.target_hash);
    lemma_array32_eq(a.authority, b.authority);
    lemma_array64_eq(a.signature, b.signature);
}

proof fn lemma_precommits_bytes_injective(s: Seq<SignedPrecommit>, t: Seq<SignedPrecommit>)
    requires
        s.len() == t.len(),
        precommits_bytes(s) == precommits_bytes(t),
    ensures
        s == t,
    decreases s.len(),
{
    if s.len() > 0 {
        lemma_precommits_bytes_len(s.drop_last());
        lemma_precommits_bytes_len(t.drop_last());
        lemma_le_bytes_len(s.last().target_number as int, 4);
        lemma_le_bytes_len(t.last().target_number as int, 4);
        let m = 132 * (s.len() - 1);
        assert(precommits_bytes(s).subrange(0, m) =~= precommits_bytes(s.drop_last()));
        assert(precommits_bytes(t).subrange(0, m) =~= precommits_bytes(t.drop_last()));
        assert(precommits_bytes(s).subrange(m, m + 132) =~= precommit_bytes(s.last()));
        assert(precommits_bytes(t).subrange(m, m + 132) =~= precommit_bytes(t.last()));
        lemma_precommits_bytes_injective(s.drop_last(), t.drop_last());
        lemma_precommit_bytes_injective(s.last(), t.last());
        assert forall|i: int| 0 <= i < s.len() implies s[i] == t[i] by {
            if i < s.len() - 1 {
                assert(s[i] == s.drop_last()[i]);
                assert(t[i] == t.drop_last()[i]);
            }
        }
        assert(s =~= t);
    } else {
        assert(s =~= t);
    }
}

/// No two proofs within bounds have encodings that both open the same bytes:
/// the encoding is prefix-free, so a proof is read back uniquely.
pub proof fn lemma_encoding_injective(v1: FinalityProofView, v2: FinalityProofView, b: Seq<u8>)
    requires
        proof_in_bounds(v1),
        proof_in_bounds(v2),
        starts_with(b, finality_proof_bytes(v1)),
        starts_with(b, finality_proof_bytes(v2)),
    ensures
        v1 == v2,
{
    lemma_proof_layout(v1);
    lemma_proof_layout(v2);
    lemma_pow256_values();
    let e1 = finality_proof_bytes(v1);
    let e2 = finality_proof_bytes(v2);
    let n1 = v1.precommits.len();
    let n2 = v2.precommits.len();
    assert forall|i: int, j: int| 0 <= i <= j <= e1.len() && j <= e2.len() implies #[trigger] e1.subrange(
        i,
        j,
    ) == e2.subrange(i, j) by {
        assert(e1.subrange(i, j) =~= b.subrange(0, e1.len() as int).subrange(i, j));
        assert(e2.subrange(i, j) =~= b.subrange(0, e2.len() as int).subrange(i, j));
        assert(b.subrange(0, e1.len() as int).subrange(i, j) =~= b.subrange(i, j));
        assert(b.subrange(0, e2.len() as int).subrange(i, j) =~= b.subrange(i, j));
    }
    assert(e1.subrange(0, 8) == e2.subrange(0, 8));
    assert(e1.subrange(8, 16) == e2.subrange(8, 16));
    assert(e1.subrange(16, 48) == e2.subrange(16, 48));
    assert(e1.subrange(48, 52) == e2.subrange(48, 52));
    lemma_le_value_of_bytes(v1.round as int, 8);
    lemma_le_value_of_bytes(v2.round as int, 8);
    lemma_le_value_of_bytes(v1.set_id as int, 8);
    lemma_le_value_of_bytes(v2.set_id as int, 8);
    lemma_le_value_of_bytes(v1.target_number as int, 4);
    lemma_le_value_of_bytes(v2.target_number as int, 4);
    lemma_array32_eq(v1.target_hash, v2.target_hash);
    // the length prefixes agree
    assert(e1.subrange(52, 53) == e2.subrange(52, 53));
    assert(e1[52] == e1.subrange(52, 53)[0]);
    assert(e2[52] == e2.subrange(52, 53)[0]);
    lemma_le_bytes_len((n1 * 4 + 1) as int, 2);
    lemma_le_bytes_len((n2 * 4 + 1) as int, 2);
    assert(e1[52] == compact_u32(n1)[0]);
    assert(e2[52] == compact_u32(n2)[0]);
    if n1 < 64 {
        assert(((n1 * 4) as u8) % 4 == 0 && ((n1 * 4) as u8) / 4 == n1) by (nonlinear_arith)
            requires n1 < 64;
    } else {
        assert(((n1 * 4 + 1) % 256) % 4 == 1) by (nonlinear_arith)
            requires n1 >= 0;
    }
    if n2 < 64 {
        assert(((n2 * 4) as u8) % 4 == 0 && ((n2 * 4) as u8) / 4 == n2) by (nonlinear_arith)
            requires n2 < 64;
    } else {
        assert(((n2 * 4 + 1) % 256) % 4 == 1) by (nonlinear_arith)
            requires n2 >= 0;
    }
    if n1 >= 64 {
        assert(e1.subrange(52, 54) == e2.subrange(52, 54));
        lemma_le_value_of_bytes((n1 * 4 + 1) as int, 2);
        lemma_le_value_of_bytes((n2 * 4 + 1) as int, 2);
    }
    assert(n1 == n2);
    assert(e1.len() == e2.len());
    assert(e1 =~= e2.subrange(0, e2.len() as int));
    let c: int = if n1 < 64 { 1 } else { 2 };
    assert(precommits_bytes(v1.precommits) == precommits_bytes(v2.precommits));
    lemma_precommits_bytes_injective(v1.precommits, v2.precommits);
}

/// Decode a finality proof from the start of `b`. The result is the one
/// proof within bounds whose encoding `b` starts with; there is none exactly
/// when the result is `None`.
pub fn decode_finality_proof(b: &[u8]) -> (r: Option<GrandpaFinalityProof>)
    ensures
        r matches Some(q) ==> proof_in_bounds(q@) && starts_with(b@, finality_proof_bytes(q@)),
        forall|v: FinalityProofView|
            proof_in_bounds(v) && starts_with(b@, #[trigger] finality_proof_bytes(v)) ==> (r matches Some(
                q,
            ) && q@ == v),
{
    let ghost has_w = exists|v: FinalityProofView|
        proof_in_bounds(v) && starts_with(b@, #[trigger] finality_proof_bytes(v));
    let ghost w = choose|v: FinalityProofView|
        proof_in_bounds(v) && starts_with(b@, #[trigger] finality_proof_bytes(v));
    let ghost e = finality_proof_bytes(w);
    let ghost wn = w.precommits.len();
    let ghost wc: int = if wn < 64 { 1 } else { 2 };
    proof {
        if has_w {
            lemma_proof_layout(w);
            assert forall|i: int, j: int| 0 <= i <= j <= e.len() implies #[trigger] b@.subrange(i, j)
                == e.subrange(i, j) by {
                assert(b@.subrange(i, j) =~= b@.subrange(0, e.len() as int).subrange(i, j));
                assert(e.subrange(i, j) =~= b@.subrange(0, e.len() as int).subrange(i, j));
            }
        }
        lemma_pow256_values();
    }
    let blen = b.len();
    if blen < 53 {
        return None;
    }
    let round = read_le(b, 0, 8);
    let set_id = read_le(b, 8, 8);
    let target_hash = read_bytes32(b, 16);
    let target_number = read_le(b, 48, 4) as u32;
    proof {
        lemma_le_value_bound(b@.subrange(48, 52));
        lemma_bytes_of_le_value(b@.subrange(0, 8));
        lemma_bytes_of_le_value(b@.subrange(8, 16));
        lemma_bytes_of_le_value(b@.subrange(48, 52));
        if has_w {
            assert(b@.subrange(0, 8) == e.subrange(0, 8));
            assert(b@.subrange(8, 16) == e.subrange(8, 16));
            assert(b@.subrange(16, 48) == e.subrange(16, 48));
            assert(b@.subrange(48, 52) == e.subrange(48, 52));
            lemma_le_value_of_bytes(w.round as int, 8);
            lemma_le_value_of_bytes(w.set_id as int, 8);
            lemma_le_value_of_bytes(w.target_number as int, 4);
            lemma_array32_eq(target_hash, w.target_hash);
        }
    }
    let b0 = b[52];
    let n: usize;
    let start: usize;
    if b0 % 4 == 0 {
        n = (b0 / 4) as usize;
        start = 53;
        proof {
            assert(compact_u32(n as nat) =~= b@.subrange(52, 53));
            if has_w {
                assert(b@.subrange(52, 52 + wc) == e.subrange(52, 52 + wc));
                if wn >= 64 {
                    lemma_le_bytes_len((wn * 4 + 1) as int, 2);
                    assert(b@[52] == compact_u32(wn)[0]);
                    assert(((wn * 4 + 1) % 256) % 4 == 1) by (nonlinear_arith)
                        requires wn >= 0;
                }
                assert(b@[52] == compact_u32(wn)[0]);
            }
        }
    } else if b0 % 4 == 1 {
        if blen < 54 {
            proof {
                if has_w && wn < 64 {
                    assert(b@[52] == compact_u32(wn)[0]);
                    assert(((wn * 4) as u8) % 4 == 0) by (nonlinear_arith)
                        requires wn < 64;
                }
            }
            return None;
        }
        let v = read_le(b, 52, 2);
        let x = v / 4;
        proof {
            lemma_le_value_bound(b@.subrange(52, 54));
            lemma_bytes_of_le_value(b@.subrange(52, 54));
            if has_w && wn < 64 {
                assert(b@[52] == compact_u32(wn)[0]);
                assert(((wn * 4) as u8) % 4 == 0) by (nonlinear_arith)
                    requires wn < 64;
            }
            if has_w {
                assert(b@.subrange(52, 54) == e.subrange(52, 54));
                lemma_le_value_of_bytes((wn * 4 + 1) as int, 2);
                assert(v == wn * 4 + 1);
                assert(x == wn) by (nonlinear_arith)
                    requires v == wn * 4 + 1, x == v / 4;
            }
            assert(v % 4 == 1) by {
                assert(b@.subrange(52, 54)[0] == b0);
                assert(b@.subrange(52, 54).drop_first().len() == 1);
                let r = le_value(b@.subrange(52, 54).drop_first());
                assert(v == b0 + 256 * r);
                assert((b0 + 256 * r) % 4 == b0 % 4) by (nonlinear_arith)
                    requires r >= 0;
            }
            assert(v == x * 4 + 1) by (nonlinear_arith)
                requires v % 4 == 1, x == v / 4;
        }
        if x < 64 {
            return None;
        }
        n = x as usize;
        start = 54;
    } else {
        proof {
            if has_w {
                assert(b@[52] == compact_u32(wn)[0]);
                if wn < 64 {
                    assert(((wn * 4) as u8) % 4 == 0) by (nonlinear_arith)
                        requires wn < 64;
                } else {
                    lemma_le_bytes_len((wn * 4 + 1) as int, 2);
                    assert(((wn * 4 + 1) % 256) % 4 == 1) by (nonlinear_arith)
                        requires wn >= 0;
                }
            }
        }
        return None;
    }
    if n > MAX_PRECOMMITS as usize {
        return None;
    }
    proof {
        assert(b@.subrange(52, start as int) == compact_u32(n as nat));
        if has_w {
            assert(n == wn);
            assert(start == 52 + wc);
        }
    }
    let mut precommits: Vec<SignedPrecommit> = Vec::new();
    let mut k: usize = 0;
    while k < n
        invariant
            k <= n <= MAX_PRECOMMITS,
            53 <= start <= 54,
            start + 0 <= blen == b@.len(),
            precommits@.len() == k,
            start + 132 * k <= blen,
            b@.subrange(start as int, start + 132 * k) == precommits_bytes(precommits@),
            has_w == exists|v: FinalityProofView|
                proof_in_bounds(v) && starts_with(b@, #[trigger] finality_proof_bytes(v)),
            has_w ==> n == wn && start == 52 + wc && e.len() == 52 + wc + 132 * wn,
            has_w ==> starts_with(b@, e),
            pow256(4) == 0x1_0000_0000,
            le_bytes(round as int, 8) == b@.subrange(0, 8),
            le_bytes(set_id as int, 8) == b@.subrange(8, 16),
            target_hash@ == b@.subrange(16, 48),
            le_bytes(target_number as int, 4) == b@.subrange(48, 52),
            b@.subrange(52, start as int) == compact_u32(n as nat),
        decreases n - k,
    {
        let off = start + 132 * k;
        if off + 132 > blen {
            proof {
                if has_w {
                    assert(132 * (k + 1) <= 132 * n) by (nonlinear_arith)
                        requires k < n;
                }
            }
            return None;
        }
        let th = read_bytes32(b, off);
        let num = read_le(b, off + 32, 4) as u32;
        let auth = read_bytes32(b, off + 36);
        let sig = read_bytes64(b, off + 68);
        let sp = SignedPrecommit { target_hash: th, target_number: num, authority: auth, signature: sig };
        proof {
            lemma_le_value_bound(b@.subrange(off + 32, off + 36));
            lemma_bytes_of_le_value(b@.subrange(off + 32, off + 36));
            lemma_le_bytes_len(num as int, 4);
            assert(b@.subrange(off as int, off + 132) =~= b@.subrange(off as int, off + 32)
                + b@.subrange(off + 32, off + 36) + b@.subrange(off + 36, off + 68) + b@.subrange(
                off + 68,
                off + 132,
            ));
            assert(precommit_bytes(sp) =~= b@.subrange(off as int, off + 132));
        }
        let ghost before = precommits@;
        precommits.push(sp);
        proof {
            assert(precommits@.drop_last() =~= before);
            assert(b@.subrange(start as int, start + 132 * (k + 1)) =~= b@.subrange(
                start as int,
                start + 132 * k,
            ) + b@.subrange(off as int, off + 132));
        }
        k = k + 1;
    }
    let q = GrandpaFinalityProof { round, set_id, target_hash, target_number, precommits };
    proof {
        let enc = finality_proof_bytes(q@);
        lemma_proof_layout(q@);
        assert(b@.subrange(0, enc.len() as int) =~= b@.subrange(0, 8) + b@.subrange(8, 16)
            + b@.subrange(16, 48) + b@.subrange(48, 52) + b@.subrange(52, start as int)
            + b@.subrange(start as int, start + 132 * n));
        assert(enc =~= le_bytes(round as int, 8) + le_bytes(set_id as int, 8) + target_hash@
            + le_bytes(target_number as int, 4) + compact_u32(n as nat) + precommits_bytes(
            precommits@,
        ));
        assert forall|v: FinalityProofView|
            proof_in_bounds(v) && starts_with(b@, #[trigger] finality_proof_bytes(v)) implies q@
            == v by {
            lemma_encoding_injective(q@, v, b@);
        }
    }
    Some(q)
}

} // verus!
