//! Lottery ownership proof: at claim time the winner proves it owns the
//! winning ticket and binds the payout to a beneficiary, without revealing
//! who it is.
//!
//! Public inputs, in order: `[invoice_hash, owner_commitment, draw_id,
//! beneficiary, nullifier, viewing_key_commitment]`.
use vstd::prelude::*;
use crate::primitives::{Commitment, Hash32, Nullifier};
use crate::scale::le_value;
use crate::zk::{
    groth16_bytes_verdict, groth16_verdict, scalar_from_le_bytes_mod_order, scalar_from_u64,
    scalar_of, verdict_result, verify_bytes, verify_groth16, Fr, PreparedVerifyingKey, Proof,
    VerifyError,
};

verus! {

/// The six ownership scalars, in order.
pub open spec fn ownership_inputs_ok(
    invoice_hash: Hash32,
    owner_commitment: Commitment,
    draw_id: u64,
    beneficiary: Seq<u8>,
    nullifier: Nullifier,
    viewing_key_commitment: Commitment,
    s: Seq<Fr>,
) -> bool {
    &&& s.len() == 6
    &&& le_value(s[0]@) == scalar_of(invoice_hash@)
    &&& le_value(s[1]@) == scalar_of(owner_commitment@)
    &&& le_value(s[2]@) == draw_id
    &&& le_value(s[3]@) == scalar_of(beneficiary)
    &&& le_value(s[4]@) == scalar_of(nullifier@)
    &&& le_value(s[5]@) == scalar_of(viewing_key_commitment@)
}

/// Verify an ownership proof against a prepared key.
pub fn verify_ownership(proof: &Proof, vk: &PreparedVerifyingKey, public_inputs: &[Fr]) -> (r: Result<bool, VerifyError>)
    ensures
        r == verdict_result(groth16_verdict(vk.encoding(), proof.encoding(), public_inputs@)),
{
    verify_groth16(proof, vk, public_inputs)
}

/// Map the ownership fields to scalars in verifier order.
pub fn public_inputs_from_fields(
    invoice_hash: &Hash32,
    owner_commitment: &Commitment,
    draw_id: u64,
    beneficiary: &[u8],
    nullifier: &Nullifier,
    viewing_key_commitment: &Commitment,
) -> (r: Vec<Fr>)
    ensures
        ownership_inputs_ok(
            *invoice_hash,
            *owner_commitment,
            draw_id,
            beneficiary@,
            *nullifier,
            *viewing_key_commitment,
            r@,
        ),
{
    let mut out: Vec<Fr> = Vec::new();
    out.push(scalar_from_le_bytes_mod_order(invoice_hash));
    out.push(scalar_from_le_bytes_mod_order(owner_commitment));
    out.push(scalar_from_u64(draw_id));
    out.push(scalar_from_le_bytes_mod_order(beneficiary));
    out.push(scalar_from_le_bytes_mod_order(nullifier));
    out.push(scalar_from_le_bytes_mod_order(viewing_key_commitment));
    out
}

/// Decode the proof and the key, map the fields and verify.
pub fn verify(
    proof_bytes: &[u8],
    vk_bytes: &[u8],
    invoice_hash: &Hash32,
    owner_commitment: &Commitment,
    draw_id: u64,
    beneficiary: &[u8],
    nullifier: &Nullifier,
    viewing_key_commitment: &Commitment,
) -> (r: Result<bool, VerifyError>)
    ensures
        exists|s: Seq<Fr>|
            ownership_inputs_ok(
                *invoice_hash,
                *owner_commitment,
                draw_id,
                beneficiary@,
                *nullifier,
                *viewing_key_commitment,
                s,
            ) && r == groth16_bytes_verdict(proof_bytes@, vk_bytes@, s),
{
    let xs = public_inputs_from_fields(
        invoice_hash,
        owner_commitment,
        draw_id,
        beneficiary,
        nullifier,
        viewing_key_commitment,
    );
    verify_bytes(proof_bytes, vk_bytes, xs.as_slice())
}


/// The public inputs are determined by the fields.
pub proof fn lemma_ownership_inputs_unique(invoice_hash: Hash32, owner_commitment: Commitment, draw_id: u64, beneficiary: Seq<u8>, nullifier: Nullifier, viewing_key_commitment: Commitment, s: Seq<Fr>, t: Seq<Fr>)
    requires
        ownership_inputs_ok(invoice_hash, owner_commitment, draw_id, beneficiary, nullifier, viewing_key_commitment, s),
        ownership_inputs_ok(invoice_hash, owner_commitment, draw_id, beneficiary, nullifier, viewing_key_commitment, t),
    ensures
        s == t,
{
    assert forall|i: int| 0 <= i < 6 implies s[i] == t[i] by {
        crate::zk::lemma_scalar_determined(s[i], t[i]);
    }
    assert(s =~= t);
}

} // verus!
