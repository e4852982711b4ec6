//! Lottery eligibility proof: the ticket holder proves knowledge of the
//! purchase secret of an invoice, membership of the merchant set and age
//! above the threshold, with the nullifier derived from the secret, the
//! invoice and the draw, and reveals none of them.
//!
//! Public inputs, in order:
//! `[invoice_hash, merchant_set_root, draw_id, threshold, nullifier]`.
use vstd::prelude::*;
use crate::primitives::{Hash32, Nullifier};
use crate::scale::le_value;
use crate::zk::{
    groth16_bytes_verdict, groth16_verdict, scalar_from_le_bytes_mod_order, scalar_from_u64,
    scalar_of, verdict_result, verify_bytes, verify_groth16, Fr, PreparedVerifyingKey, Proof,
    VerifyError,
};

verus! {

/// The five eligibility scalars, in order.
pub open spec fn eligibility_inputs_ok(
    invoice_hash: Hash32,
    merchant_set_root: Hash32,
    draw_id: u64,
    threshold: u32,
    nullifier: Nullifier,
    s: Seq<Fr>,
) -> bool {
    &&& s.len() == 5
    &&& le_value(s[0]@) == scalar_of(invoice_hash@)
    &&& le_value(s[1]@) == scalar_of(merchant_set_root@)
    &&& le_value(s[2]@) == draw_id
    &&& le_value(s[3]@) == threshold
    &&& le_value(s[4]@) == scalar_of(nullifier@)
}

/// Verify an eligibility proof against a prepared key.
pub fn verify_eligibility(proof: &Proof, vk: &PreparedVerifyingKey, public_inputs: &[Fr]) -> (r: Result<bool, VerifyError>)
    ensures
        r == verdict_result(groth16_verdict(vk.encoding(), proof.encoding(), public_inputs@)),
{
    verify_groth16(proof, vk, public_inputs)
}

/// Map the eligibility fields to scalars in verifier order.
pub fn public_inputs_from_fields(
    invoice_hash: &Hash32,
    merchant_set_root: &Hash32,
    draw_id: u64,
    threshold: u32,
    nullifier: &Nullifier,
) -> (r: Vec<Fr>)
    ensures
        eligibility_inputs_ok(*invoice_hash, *merchant_set_root, draw_id, threshold, *nullifier, r@),
{
    let mut out: Vec<Fr> = Vec::new();
    out.push(scalar_from_le_bytes_mod_order(invoice_hash));
    out.push(scalar_from_le_bytes_mod_order(merchant_set_root));
    out.push(scalar_from_u64(draw_id));
    out.push(scalar_from_u64(threshold as u64));
    out.push(scalar_from_le_bytes_mod_order(nullifier));
    out
}

/// Decode the proof and the key, map the fields and verify.
pub fn verify(
    proof_bytes: &[u8],
    vk_bytes: &[u8],
    invoice_hash: &Hash32,
    merchant_set_root: &Hash32,
    draw_id: u64,
    threshold: u32,
    nullifier: &Nullifier,
) -> (r: Result<bool, VerifyError>)
    ensures
        exists|s: Seq<Fr>|
            eligibility_inputs_ok(*invoice_hash, *merchant_set_root, draw_id, threshold, *nullifier, s)
                && r == groth16_bytes_verdict(proof_bytes@, vk_bytes@, s),
{
    let xs = public_inputs_from_fields(invoice_hash, merchant_set_root, draw_id, threshold, nullifier);
    verify_bytes(proof_bytes, vk_bytes, xs.as_slice())
}


/// The public inputs are determined by the fields.
pub proof fn lemma_eligibility_inputs_unique(invoice_hash: Hash32, merchant_set_root: Hash32, draw_id: u64, threshold: u32, nullifier: Nullifier, s: Seq<Fr>, t: Seq<Fr>)
    requires
        eligibility_inputs_ok(invoice_hash, merchant_set_root, draw_id, threshold, nullifier, s),
        eligibility_inputs_ok(invoice_hash, merchant_set_root, draw_id, threshold, nullifier, t),
    ensures
        s == t,
{
    assert forall|i: int| 0 <= i < 5 implies s[i] == t[i] by {
        crate::zk::lemma_scalar_determined(s[i], t[i]);
    }
    assert(s =~= t);
}

} // verus!
