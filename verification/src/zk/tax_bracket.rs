//! Zero-knowledge tax-bracket proof: "income is at or above a bracket
//! threshold" without the income. The statement has the shape of the age
//! proof, so the public inputs are `[issuer_commitment, bracket_threshold,
//! nullifier]`.
use vstd::prelude::*;
use crate::primitives::AgeProofPublicInputs;
use crate::zk::age_proof::{age_inputs_ok, public_inputs_from};
use crate::zk::{
    groth16_bytes_verdict, groth16_verdict, verdict_result, verify_bytes, verify_groth16, Fr,
    PreparedVerifyingKey, Proof, VerifyError,
};

verus! {

/// Verify a tax-bracket threshold proof against a prepared key.
pub fn verify_bracket_threshold(proof: &Proof, vk: &PreparedVerifyingKey, public_inputs: &[Fr]) -> (r: Result<bool, VerifyError>)
    ensures
        r == verdict_result(groth16_verdict(vk.encoding(), proof.encoding(), public_inputs@)),
{
    verify_groth16(proof, vk, public_inputs)
}

/// Decode the proof and the key, map the inputs and verify.
pub fn verify(proof_bytes: &[u8], vk_bytes: &[u8], inputs: &AgeProofPublicInputs) -> (r: Result<bool, VerifyError>)
    ensures
        exists|s: Seq<Fr>| age_inputs_ok(*inputs, s) && r == groth16_bytes_verdict(proof_bytes@, vk_bytes@, s),
{
    let xs = public_inputs_from(inputs);
    verify_bytes(proof_bytes, vk_bytes, xs.as_slice())
}

} // verus!
