//! Zero-knowledge verification: Groth16 proofs over BLS12-381 for the age,
//! tax-bracket and lottery statements, canonical scalar encodings, and the
//! hash-commitment selective-disclosure scheme. Only commitments, hashes and
//! nullifiers pass through here; no plaintext claim value ever does.
//!
//! Field elements travel as [`Fr`]: the 32-byte little-endian encoding of a
//! scalar below the BLS12-381 scalar modulus.
use vstd::prelude::*;
use ark_bls12_381::Bls12_381;
use ark_ff::{BigInteger, PrimeField};
use ark_groth16::Groth16;
use ark_serialize::CanonicalDeserialize;
use blake2::{Blake2b512, Digest};
use crate::scale::{le_value, push_le, le_bytes, lemma_le_value_of_bytes, lemma_bytes_of_le_value, lemma_le_bytes_len, lemma_pow256_values, pow256};
use crate::table::bytes_eq;
use crate::primitives::copy_vec;

pub mod age_proof;
pub mod bbs;
pub mod lottery_eligibility;
pub mod lottery_ownership;
pub mod tax_bracket;

verus! {

/// A scalar of BLS12-381 in its canonical 32-byte little-endian encoding.
pub type Fr = [u8; 32];

/// The order `r` of the BLS12-381 scalar field.
pub open spec fn scalar_modulus() -> nat {
    0x73eda753299d7d483339d80809a1d80553bda402fffe5bfeffffffff00000001nat
}

/// The scalar a byte string reduces to, read little-endian.
pub open spec fn scalar_of(bytes: Seq<u8>) -> nat {
    le_value(bytes) % scalar_modulus()
}

/// Errors met while decoding or verifying a proof.
#[derive(Clone, Copy, Debug, PartialEq, Eq)]
pub enum VerifyError {
    /// The proof or verifying-key bytes do not decode, or the pairing check
    /// itself failed.
    Malformed,
    /// The proof decoded but the pairing check rejected it.
    InvalidProof,
}

/// Reads `bytes` little-endian into a BLS12-381 scalar with
/// `Fr::from_le_bytes_mod_order` and hands back the scalar's canonical
/// little-endian encoding. The contract states what the ark-ff documentation
/// promises: the integer is reduced modulo the scalar field order.
#[verifier::external_body]
fn scalar_from_le_bytes_mod_order(bytes: &[u8]) -> (r: Fr)
    ensures
        le_value(r@) == scalar_of(bytes@),
{
    let fe = ark_bls12_381::Fr::from_le_bytes_mod_order(bytes);
    let v = fe.into_bigint().to_bytes_le();
    let mut out = [0u8; 32];
    out.copy_from_slice(&v[..32]);
    out
}

/// Whether a 32-byte value is a canonical BLS12-381 scalar, that is, below
/// the field order. Canonical encodings map one-to-one onto field elements,
/// so nullifier maps keyed on them cannot be replayed through a second
/// encoding of the same element.
pub fn is_canonical_scalar(bytes: &[u8; 32]) -> (r: bool)
    ensures
        r == (le_value(bytes@) < scalar_modulus()),
{
    let c = scalar_from_le_bytes_mod_order(bytes);
    let eq = bytes_eq(&c, bytes);
    proof {
        if le_value(bytes@) < scalar_modulus() {
            lemma_bytes_of_le_value(c@);
            lemma_bytes_of_le_value(bytes@);
            assert(c@.len() == 32 && bytes@.len() == 32);
        } else {
            assert(le_value(c@) != le_value(bytes@));
        }
    }
    eq
}

/// The scalar encoding of a small integer (`Fr::from(x)`).
pub fn scalar_from_u64(x: u64) -> (r: Fr)
    ensures
        le_value(r@) == x,
{
    let mut buf: Vec<u8> = Vec::new();
    push_le(&mut buf, x as u128, 8);
    let r = scalar_from_le_bytes_mod_order(buf.as_slice());
    proof {
        lemma_pow256_values();
        lemma_le_value_of_bytes(x as int, 8);
        assert(buf@ =~= le_bytes(x as int, 8));
    }
    r
}

/// Two canonical encodings with the same value are the same bytes.
pub proof fn lemma_scalar_determined(a: Fr, b: Fr)
    requires
        le_value(a@) == le_value(b@),
    ensures
        a == b,
{
    broadcast use vstd::array::group_array_axioms;

    lemma_bytes_of_le_value(a@);
    lemma_bytes_of_le_value(b@);
    assert(a@ =~= b@);
    assert(a =~= b);
}

/// A Groth16 proof over BLS12-381, held in its compressed encoding.
pub struct Proof {
    bytes: Vec<u8>,
}

/// A Groth16 verifying key over BLS12-381, held in its compressed encoding;
/// the verifier prepares it for the pairing check.
pub struct PreparedVerifyingKey {
    bytes: Vec<u8>,
}

/// Whether bytes decode as a compressed Groth16 proof over BLS12-381.
pub uninterp spec fn groth16_proof_decodes(bytes: Seq<u8>) -> bool;

/// Whether bytes decode as a compressed Groth16 verifying key over BLS12-381.
pub uninterp spec fn groth16_vk_decodes(bytes: Seq<u8>) -> bool;

/// The Groth16 verifier's answer for a verifying key, a proof and public
/// inputs: `Some(valid)` from the pairing check, `None` when the check
/// errs (as for a wrong number of public inputs).
pub uninterp spec fn groth16_verdict(vk: Seq<u8>, proof: Seq<u8>, inputs: Seq<Fr>) -> Option<bool>;

/// Whether `Proof::<Bls12_381>::deserialize_compressed` accepts the bytes.
#[verifier::external_body]
fn proof_deserializes(bytes: &[u8]) -> (r: bool)
    ensures
        r == groth16_proof_decodes(bytes@),
{
    ark_groth16::Proof::<Bls12_381>::deserialize_compressed(bytes).is_ok()
}

/// Whether `VerifyingKey::<Bls12_381>::deserialize_compressed` accepts the bytes.
#[verifier::external_body]
fn vk_deserializes(bytes: &[u8]) -> (r: bool)
    ensures
        r == groth16_vk_decodes(bytes@),
{
    ark_groth16::VerifyingKey::<Bls12_381>::deserialize_compressed(bytes).is_ok()
}

/// `Groth16::<Bls12_381>::verify_proof` on the decoded key (prepared with
/// `prepare_verifying_key`), the decoded proof and the scalars read from the
/// inputs; `None` when the verifier returns an error. The contract names the
/// answer as a function of the three byte strings; the pairing arithmetic is
/// not stated.
#[verifier::external_body]
fn groth16_verify_proof(vk: &[u8], proof: &[u8], inputs: &[Fr]) -> (r: Option<bool>)
    requires
        groth16_vk_decodes(vk@),
        groth16_proof_decodes(proof@),
    ensures
        r == groth16_verdict(vk@, proof@, inputs@),
{
    let vk = match ark_groth16::VerifyingKey::<Bls12_381>::deserialize_compressed(vk) {
        Ok(v) => v,
        Err(_) => return None,
    };
    let pvk = ark_groth16::prepare_verifying_key(&vk);
    let proof = match ark_groth16::Proof::<Bls12_381>::deserialize_compressed(proof) {
        Ok(p) => p,
        Err(_) => return None,
    };
    let xs: Vec<ark_bls12_381::Fr> = inputs.iter().map(|b| ark_bls12_381::Fr::from_le_bytes_mod_order(b)).collect();
    Groth16::<Bls12_381>::verify_proof(&pvk, &proof, &xs).ok()
}

impl Proof {
    #[verifier::type_invariant]
    spec fn decodes(self) -> bool {
        groth16_proof_decodes(self.bytes@)
    }

    /// The compressed encoding of the proof.
    pub closed spec fn encoding(self) -> Seq<u8> {
        self.bytes@
    }
}

impl PreparedVerifyingKey {
    #[verifier::type_invariant]
    spec fn decodes(self) -> bool {
        groth16_vk_decodes(self.bytes@)
    }

    /// The compressed encoding of the key.
    pub closed spec fn encoding(self) -> Seq<u8> {
        self.bytes@
    }
}

/// Decode a compressed Groth16 proof.
pub fn decode_proof(bytes: &[u8]) -> (r: Result<Proof, VerifyError>)
    ensures
        r is Ok <==> groth16_proof_decodes(bytes@),
        r matches Ok(p) ==> p.encoding() == bytes@,
        r matches Err(e) ==> e == VerifyError::Malformed,
{
    if proof_deserializes(bytes) {
        Ok(Proof { bytes: copy_vec(bytes) })
    } else {
        Err(VerifyError::Malformed)
    }
}

/// Decode a compressed Groth16 verifying key and prepare it.
pub fn decode_vk(bytes: &[u8]) -> (r: Result<PreparedVerifyingKey, VerifyError>)
    ensures
        r is Ok <==> groth16_vk_decodes(bytes@),
        r matches Ok(k) ==> k.encoding() == bytes@,
        r matches Err(e) ==> e == VerifyError::Malformed,
{
    if vk_deserializes(bytes) {
        Ok(PreparedVerifyingKey { bytes: copy_vec(bytes) })
    } else {
        Err(VerifyError::Malformed)
    }
}

/// The verifier's answer as a result: an erring check is `Malformed`.
pub open spec fn verdict_result(v: Option<bool>) -> Result<bool, VerifyError> {
    match v {
        Some(b) => Ok(b),
        None => Err(VerifyError::Malformed),
    }
}

/// Verify a decoded Groth16 proof against a prepared key and public inputs.
pub fn verify_groth16(proof: &Proof, vk: &PreparedVerifyingKey, public_inputs: &[Fr]) -> (r: Result<bool, VerifyError>)
    ensures
        r == verdict_result(groth16_verdict(vk.encoding(), proof.encoding(), public_inputs@)),
{
    proof {
        use_type_invariant(proof);
        use_type_invariant(vk);
    }
    match groth16_verify_proof(vk.bytes.as_slice(), proof.bytes.as_slice(), public_inputs) {
        Some(b) => Ok(b),
        None => Err(VerifyError::Malformed),
    }
}

/// The one-shot verdict on proof bytes and key bytes for given public
/// inputs: `Malformed` when either does not decode, else the verifier's
/// answer.
pub open spec fn groth16_bytes_verdict(proof: Seq<u8>, vk: Seq<u8>, inputs: Seq<Fr>) -> Result<bool, VerifyError> {
    if !groth16_proof_decodes(proof) || !groth16_vk_decodes(vk) {
        Err(VerifyError::Malformed)
    } else {
        verdict_result(groth16_verdict(vk, proof, inputs))
    }
}

/// Decode the proof and the key, then verify the proof for `inputs`.
pub fn verify_bytes(proof_bytes: &[u8], vk_bytes: &[u8], inputs: &[Fr]) -> (r: Result<bool, VerifyError>)
    ensures
        r == groth16_bytes_verdict(proof_bytes@, vk_bytes@, inputs@),
{
    let proof = match decode_proof(proof_bytes) {
        Ok(p) => p,
        Err(e) => return Err(e),
    };
    let vk = match decode_vk(vk_bytes) {
        Ok(k) => k,
        Err(e) => return Err(e),
    };
    verify_groth16(&proof, &vk, inputs)
}

/// The 64-byte BLAKE2b-512 digest of some bytes.
pub uninterp spec fn blake2b_512(data: Seq<u8>) -> Seq<u8>;

/// `Blake2b512::digest` of the bytes, as an array. The contract names the
/// digest as a function of the input; its length is 64 by the type.
#[verifier::external_body]
fn blake2b_512_digest(data: &[u8]) -> (r: [u8; 64])
    ensures
        r@ == blake2b_512(data@),
{
    let out = Blake2b512::digest(data);
    let mut r = [0u8; 64];
    r.copy_from_slice(&out[..]);
    r
}

/// The first 32 bytes of the BLAKE2b-512 digest.
pub open spec fn blake2b_32_of(data: Seq<u8>) -> Seq<u8> {
    blake2b_512(data).subrange(0, 32)
}

/// Hash bytes to a 32-byte digest: the first half of BLAKE2b-512.
pub fn blake2b_32(data: &[u8]) -> (r: [u8; 32])
    ensures
        r@ == blake2b_32_of(data@),
{
    let full = blake2b_512_digest(data);
    let mut out: [u8; 32] = [0u8; 32];
    let mut i: usize = 0;
    while i < 32
        invariant
            i <= 32,
            full@ == blake2b_512(data@),
            forall|k: int| 0 <= k < i ==> out@[k] == full@[k],
        decreases 32 - i,
    {
        out[i] = full[i];
        i = i + 1;
    }
    assert(out@ =~= blake2b_512(data@).subrange(0, 32));
    out
}

} // verus!
