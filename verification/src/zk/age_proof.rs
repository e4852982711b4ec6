//! Zero-knowledge age proof: a verifier learns "the holder is of age" from a
//! proof and public inputs alone, never from a birthdate, name or ID number.
//!
//! Public inputs, in order: `[issuer_commitment, threshold, nullifier]`.
use vstd::prelude::*;
use crate::primitives::AgeProofPublicInputs;
use crate::scale::le_value;
use crate::zk::{
    groth16_bytes_verdict, groth16_verdict, scalar_from_le_bytes_mod_order, scalar_from_u64,
    scalar_of, verdict_result, verify_bytes, verify_groth16, Fr, PreparedVerifyingKey, Proof,
    VerifyError,
};

verus! {

/// The public inputs are the three scalars, in order, that the fields
/// reduce to.
pub open spec fn age_inputs_ok(p: AgeProofPublicInputs, s: Seq<Fr>) -> bool {
    &&& s.len() == 3
    &&& le_value(s[0]@) == scalar_of(p.issuer_commitment@)
    &&& le_value(s[1]@) == p.threshold
    &&& le_value(s[2]@) == scalar_of(p.nullifier@)
}

/// Map the public-input record to scalars in the order
/// `[issuer_commitment, threshold, nullifier]`; hashes are read
/// little-endian and reduced modulo the scalar field.
pub fn public_inputs_from(p: &AgeProofPublicInputs) -> (r: Vec<Fr>)
    ensures
        age_inputs_ok(*p, r@),
{
    let mut out: Vec<Fr> = Vec::new();
    out.push(scalar_from_le_bytes_mod_order(&p.issuer_commitment));
    out.push(scalar_from_u64(p.threshold as u64));
    out.push(scalar_from_le_bytes_mod_order(&p.nullifier));
    out
}

/// Verify a proof of "age at least the threshold" against a prepared key.
pub fn verify_age_threshold(proof: &Proof, vk: &PreparedVerifyingKey, public_inputs: &[Fr]) -> (r: Result<bool, VerifyError>)
    ensures
        r == verdict_result(groth16_verdict(vk.encoding(), proof.encoding(), public_inputs@)),
{
    verify_groth16(proof, vk, public_inputs)
}

/// Decode the proof and the key, map the inputs and verify: `Ok(true)` for a
/// valid proof, `Ok(false)` for one that decodes but fails, `Err` for bytes
/// that do not decode.
pub fn verify(proof_bytes: &[u8], vk_bytes: &[u8], inputs: &AgeProofPublicInputs) -> (r: Result<bool, VerifyError>)
    ensures
        exists|s: Seq<Fr>| age_inputs_ok(*inputs, s) && r == groth16_bytes_verdict(proof_bytes@, vk_bytes@, s),
{
    let xs = public_inputs_from(inputs);
    verify_bytes(proof_bytes, vk_bytes, xs.as_slice())
}

/// The public inputs are determined by the record: two scalar sequences
/// that both fit it are equal.
pub proof fn lemma_age_inputs_unique(p: AgeProofPublicInputs, s: Seq<Fr>, t: Seq<Fr>)
    requires
        age_inputs_ok(p, s),
        age_inputs_ok(p, t),
    ensures
        s == t,
{
    assert forall|i: int| 0 <= i < 3 implies s[i] == t[i] by {
        crate::zk::lemma_scalar_determined(s[i], t[i]);
    }
    assert(s =~= t);
}

} // verus!
