//! GRANDPA light-client finality verification.
//!
//! A finality proof of a bridged chain is accepted only when the authorities
//! that validly precommitted to the commit target carry strictly more than two
//! thirds of the recognized set's total weight. Only precommits whose target
//! equals the commit target are counted; votes for descendants are ignored,
//! which can only under-count weight and never accept a non-final block.
use vstd::prelude::*;
use sp_core::ed25519;
use sp_core::Pair;
use crate::primitives::{GrandpaAuthority, GrandpaAuthoritySet, GrandpaFinalityProof, SignedPrecommit, saturating_weight_sum};
use crate::scale::FinalityProofView;
use crate::table::bytes_eq;

verus! {

/// Reasons a GRANDPA finality proof can fail verification.
#[derive(Clone, Copy, Debug, PartialEq, Eq)]
pub enum GrandpaVerifyError {
    /// The proof's set id does not match the recognized authority set.
    SetIdMismatch,
    /// A precommit was signed by a key outside the recognized set.
    UnknownAuthority,
    /// The same authority voted more than once.
    DuplicateAuthority,
    /// A precommit's signature is invalid.
    BadSignature,
    /// Valid weight for the commit target did not exceed two thirds.
    NotEnoughWeight,
    /// An authority key or signature could not be decoded.
    MalformedKey,
}

/// What the GRANDPA signature check says of one precommit: whether the
/// ed25519 signature is valid for the key over the localized payload
/// `(Precommit(target_hash, target_number), round, set_id)`. The check always
/// answers (`Some`), since any 32 and 64 bytes are a key and a signature.
pub uninterp spec fn grandpa_precommit_check(
    authority: Seq<u8>,
    signature: Seq<u8>,
    target_hash: Seq<u8>,
    target_number: u32,
    round: u64,
    set_id: u64,
) -> Option<bool>;

/// Checks one precommit signature with `sp_core::ed25519::Pair::verify`
/// (ed25519-zebra, the same verifier whatever the environment) over
/// `sp_consensus_grandpa::localized_payload`. The contract names the answer
/// as a function of the six arguments; which signatures ed25519 accepts is
/// not stated.
#[verifier::external_body]
fn check_precommit_signature(
    authority: &[u8; 32],
    signature: &[u8; 64],
    target_hash: &[u8; 32],
    target_number: u32,
    round: u64,
    set_id: u64,
) -> (r: Option<bool>)
    ensures
        r == grandpa_precommit_check(
            authority@,
            signature@,
            target_hash@,
            target_number,
            round,
            set_id,
        ),
{
    let message = finality_grandpa::Message::Precommit(
        finality_grandpa::Precommit { target_hash: *target_hash, target_number },
    );
    let payload = sp_consensus_grandpa::localized_payload(round, set_id, &message);
    let sig = ed25519::Signature::from_raw(*signature);
    let key = ed25519::Public::from_raw(*authority);
    Some(ed25519::Pair::verify(&sig, &payload, &key))
}

/// `x * y`, saturating at `u64::MAX`.
pub open spec fn sat_mul(x: u64, y: u64) -> int {
    if x * y > u64::MAX {
        u64::MAX as int
    } else {
        x * y
    }
}

fn saturating_mul_u64(x: u64, y: u64) -> (r: u64)
    ensures
        r == sat_mul(x, y),
{
    match x.checked_mul(y) {
        Some(v) => v,
        None => u64::MAX,
    }
}

/// `x + y`, saturating at `u64::MAX`.
pub open spec fn sat_add(x: int, y: int) -> int {
    if x + y > u64::MAX {
        u64::MAX as int
    } else {
        x + y
    }
}

/// Whether a precommit votes for the commit target of the proof.
pub open spec fn targets_commit(proof: FinalityProofView, sp: SignedPrecommit) -> bool {
    sp.target_hash == proof.target_hash && sp.target_number == proof.target_number
}

/// The weight of the first authority in `auths` carrying `id`.
pub open spec fn authority_weight(auths: Seq<GrandpaAuthority>, id: [u8; 32]) -> Option<u64>
    decreases auths.len(),
{
    if auths.len() == 0 {
        None
    } else if auths[0].id == id {
        Some(auths[0].weight)
    } else {
        authority_weight(auths.drop_first(), id)
    }
}

/// The signature check of the `i`-th precommit of a proof.
pub open spec fn precommit_check(proof: FinalityProofView, i: int) -> Option<bool> {
    let sp = proof.precommits[i];
    grandpa_precommit_check(
        sp.authority@,
        sp.signature@,
        sp.target_hash@,
        sp.target_number,
        proof.round,
        proof.set_id,
    )
}

/// The verifier's state after the first `k` precommits: the authorities
/// counted so far and their accumulated weight, or the first error met.
pub open spec fn finality_scan(set: GrandpaAuthoritySet, proof: FinalityProofView, k: nat) -> Result<
    (Seq<[u8; 32]>, u64),
    GrandpaVerifyError,
>
    decreases k,
{
    if k == 0 {
        Ok((Seq::empty(), 0u64))
    } else {
        match finality_scan(set, proof, (k - 1) as nat) {
            Err(e) => Err(e),
            Ok((seen, acc)) => {
                let sp = proof.precommits[k - 1];
                if !targets_commit(proof, sp) {
                    Ok((seen, acc))
                } else {
                    match authority_weight(set.authorities@, sp.authority) {
                        None => Err(GrandpaVerifyError::UnknownAuthority),
                        Some(w) => if seen.contains(sp.authority) {
                            Err(GrandpaVerifyError::DuplicateAuthority)
                        } else {
                            match precommit_check(proof, k - 1) {
                                None => Err(GrandpaVerifyError::MalformedKey),
                                Some(false) => Err(GrandpaVerifyError::BadSignature),
                                Some(true) => Ok(
                                    (seen.push(sp.authority), sat_add(acc as int, w as int) as u64),
                                ),
                            }
                        },
                    }
                }
            },
        }
    }
}

/// The verdict on `proof` against the recognized set `set`.
pub open spec fn finality_outcome(set: GrandpaAuthoritySet, proof: FinalityProofView) -> Result<
    (),
    GrandpaVerifyError,
> {
    if proof.set_id != set.set_id {
        Err(GrandpaVerifyError::SetIdMismatch)
    } else {
        match finality_scan(set, proof, proof.precommits.len()) {
            Err(e) => Err(e),
            Ok((_, acc)) => {
                let total = saturating_weight_sum(set.authorities@) as u64;
                if sat_mul(acc, 3) > sat_mul(total, 2) {
                    Ok(())
                } else {
                    Err(GrandpaVerifyError::NotEnoughWeight)
                }
            },
        }
    }
}

/// The weight of the authorities behind the target votes among the first
/// `k` precommits, added up saturating at `u64::MAX`.
pub open spec fn counted_weight(set: GrandpaAuthoritySet, proof: FinalityProofView, k: nat) -> int
    decreases k,
{
    if k == 0 {
        0
    } else {
        let prev = counted_weight(set, proof, (k - 1) as nat);
        let sp = proof.precommits[k - 1];
        if targets_commit(proof, sp) {
            match authority_weight(set.authorities@, sp.authority) {
                Some(w) => sat_add(prev, w as int),
                None => prev,
            }
        } else {
            prev
        }
    }
}

/// Every target vote among the first `k` precommits comes from a known
/// authority and carries a valid signature.
pub open spec fn votes_valid(set: GrandpaAuthoritySet, proof: FinalityProofView, k: int) -> bool {
    forall|i: int|
        0 <= i < k && targets_commit(proof, #[trigger] proof.precommits[i]) ==> authority_weight(
            set.authorities@,
            proof.precommits[i].authority,
        ) is Some && precommit_check(proof, i) == Some(true)
}

/// No authority casts two target votes among the first `k` precommits.
pub open spec fn votes_distinct(proof: FinalityProofView, k: int) -> bool {
    forall|i: int, j: int|
        0 <= i < j < k && targets_commit(proof, #[trigger] proof.precommits[i]) && targets_commit(
            proof,
            #[trigger] proof.precommits[j],
        ) ==> proof.precommits[i].authority != proof.precommits[j].authority
}

proof fn lemma_authority_weight_found(auths: Seq<GrandpaAuthority>, id: [u8; 32])
    ensures
        authority_weight(auths, id) is Some ==> exists|i: int|
            0 <= i < auths.len() && auths[i].id == id && auths[i].weight == authority_weight(
                auths,
                id,
            )->0,
    decreases auths.len(),
{
    if auths.len() > 0 && auths[0].id != id {
        lemma_authority_weight_found(auths.drop_first(), id);
        if authority_weight(auths, id) is Some {
            let i = choose|i: int|
                0 <= i < auths.drop_first().len() && auths.drop_first()[i].id == id
                    && auths.drop_first()[i].weight == authority_weight(auths.drop_first(), id)->0;
            assert(auths[i + 1] == auths.drop_first()[i]);
        }
    } else if auths.len() > 0 {
        assert(auths[0].id == id);
    }
}

proof fn lemma_scan(set: GrandpaAuthoritySet, proof: FinalityProofView, k: nat)
    requires
        k <= proof.precommits.len(),
    ensures
        finality_scan(set, proof, k) is Ok <==> votes_valid(set, proof, k as int) && votes_distinct(
            proof,
            k as int,
        ),
        finality_scan(set, proof, k) is Ok ==> {
            let (seen, acc) = finality_scan(set, proof, k)->Ok_0;
            &&& acc == counted_weight(set, proof, k)
            &&& forall|a: [u8; 32]|
                seen.contains(a) <==> exists|i: int|
                    0 <= i < k && targets_commit(proof, #[trigger] proof.precommits[i])
                        && proof.precommits[i].authority == a
        },
    decreases k,
{
    if k > 0 {
        let km = (k - 1) as nat;
        lemma_scan(set, proof, km);
        let sp = proof.precommits[km as int];
        match finality_scan(set, proof, km) {
            Err(e) => {
                assert(!(votes_valid(set, proof, km as int) && votes_distinct(proof, km as int)));
                if votes_valid(set, proof, k as int) {
                    assert(votes_valid(set, proof, km as int));
                }
                if votes_distinct(proof, k as int) {
                    assert(votes_distinct(proof, km as int));
                }
            },
            Ok((seen, acc)) => {
                if !targets_commit(proof, sp) {
                    assert forall|a: [u8; 32]|
                        seen.contains(a) <==> exists|i: int|
                            0 <= i < k && targets_commit(proof, #[trigger] proof.precommits[i])
                                && proof.precommits[i].authority == a by {
                        if exists|i: int|
                            0 <= i < k && targets_commit(proof, #[trigger] proof.precommits[i])
                                && proof.precommits[i].authority == a {
                            let i = choose|i: int|
                                0 <= i < k && targets_commit(proof, #[trigger] proof.precommits[i])
                                    && proof.precommits[i].authority == a;
                            assert(i < km);
                        }
                    }
                    assert(votes_valid(set, proof, k as int) == votes_valid(set, proof, km as int));
                    assert(votes_distinct(proof, k as int) == votes_distinct(proof, km as int));
                } else {
                    match authority_weight(set.authorities@, sp.authority) {
                        None => {
                            assert(!votes_valid(set, proof, k as int));
                        },
                        Some(w) => {
                            if seen.contains(sp.authority) {
                                let i = choose|i: int|
                                    0 <= i < km && targets_commit(
                                        proof,
                                        #[trigger] proof.precommits[i],
                                    ) && proof.precommits[i].authority == sp.authority;
                                assert(proof.precommits[i].authority
                                    == proof.precommits[km as int].authority);
                                assert(!votes_distinct(proof, k as int));
                            } else {
                                match precommit_check(proof, km as int) {
                                    None => {
                                        assert(!votes_valid(set, proof, k as int));
                                    },
                                    Some(false) => {
                                        assert(!votes_valid(set, proof, k as int));
                                    },
                                    Some(true) => {
                                        assert(votes_valid(set, proof, k as int)
                                            == votes_valid(set, proof, km as int));
                                        assert(votes_distinct(proof, k as int) == votes_distinct(
                                            proof,
                                            km as int,
                                        )) by {
                                            if votes_distinct(proof, km as int) {
                                                assert forall|i: int, j: int|
                                                    0 <= i < j < k && targets_commit(
                                                        proof,
                                                        #[trigger] proof.precommits[i],
                                                    ) && targets_commit(
                                                        proof,
                                                        #[trigger] proof.precommits[j],
                                                    ) implies proof.precommits[i].authority
                                                    != proof.precommits[j].authority by {
                                                    if j == km {
                                                        if proof.precommits[i].authority
                                                            == proof.precommits[j].authority {
                                                            assert(seen.contains(sp.authority));
                                                        }
                                                    }
                                                }
                                            }
                                        }
                                        let seen2 = seen.push(sp.authority);
                                        assert forall|a: [u8; 32]|
                                            seen2.contains(a) <==> exists|i: int|
                                                0 <= i < k && targets_commit(
                                                    proof,
                                                    #[trigger] proof.precommits[i],
                                                ) && proof.precommits[i].authority == a by {
                                            if seen2.contains(a) {
                                                let p = seen2.index_of(a);
                                                if p == seen.len() {
                                                    assert(targets_commit(
                                                        proof,
                                                        proof.precommits[km as int],
                                                    ));
                                                } else {
                                                    assert(seen.contains(a));
                                                }
                                            }
                                            if exists|i: int|
                                                0 <= i < k && targets_commit(
                                                    proof,
                                                    #[trigger] proof.precommits[i],
                                                ) && proof.precommits[i].authority == a {
                                                let i = choose|i: int|
                                                    0 <= i < k && targets_commit(
                                                        proof,
                                                        #[trigger] proof.precommits[i],
                                                    ) && proof.precommits[i].authority == a;
                                                if i < km {
                                                    assert(seen.contains(a));
                                                    let p = seen.index_of(a);
                                                    assert(seen2[p] == a);
                                                } else {
                                                    assert(seen2[seen.len() as int] == a);
                                                }
                                            }
                                        }
                                    },
                                }
                            }
                        },
                    }
                }
            },
        }
    }
}

/// A finality proof is accepted exactly when its set id matches the
/// recognized set, every precommit for the commit target comes from a known
/// authority with a valid signature, no authority votes twice, and the weight
/// of those authorities is strictly more than two thirds of the set's total
/// weight (both sides computed saturating at `u64::MAX`).
pub proof fn lemma_finality_accepts_iff(set: GrandpaAuthoritySet, proof: FinalityProofView)
    ensures
        finality_outcome(set, proof) is Ok <==> {
            &&& proof.set_id == set.set_id
            &&& votes_valid(set, proof, proof.precommits.len() as int)
            &&& votes_distinct(proof, proof.precommits.len() as int)
            &&& sat_mul(counted_weight(set, proof, proof.precommits.len()) as u64, 3) > sat_mul(
                saturating_weight_sum(set.authorities@) as u64,
                2,
            )
        },
{
    lemma_scan(set, proof, proof.precommits.len());
}

proof fn lemma_scan_error_sticks(set: GrandpaAuthoritySet, proof: FinalityProofView, k: nat, n: nat)
    requires
        k <= n,
        finality_scan(set, proof, k) is Err,
    ensures
        finality_scan(set, proof, n) == finality_scan(set, proof, k),
    decreases n - k,
{
    if k < n {
        lemma_scan_error_sticks(set, proof, k, (n - 1) as nat);
    }
}

/// The weight of the first authority carrying `id`.
fn find_authority_weight(auths: &Vec<GrandpaAuthority>, id: &[u8; 32]) -> (r: Option<u64>)
    ensures
        r == authority_weight(auths@, *id),
{
    let mut i: usize = 0;
    assert(auths@.skip(0) =~= auths@);
    while i < auths.len()
        invariant
            i <= auths@.len(),
            authority_weight(auths@, *id) == authority_weight(auths@.skip(i as int), *id),
        decreases auths@.len() - i,
    {
        assert(auths@.skip(i as int)[0] == auths@[i as int]);
        assert(auths@.skip(i as int).drop_first() =~= auths@.skip(i + 1));
        if bytes_eq(&auths[i].id, id) {
            return Some(auths[i].weight);
        }
        assert(auths[i as int].id != *id);
        i = i + 1;
    }
    assert(auths@.skip(i as int).len() == 0);
    None
}

/// Whether `id` occurs in `seen`.
fn contains_id(seen: &Vec<[u8; 32]>, id: &[u8; 32]) -> (r: bool)
    ensures
        r == seen@.contains(*id),
{
    let mut i: usize = 0;
    while i < seen.len()
        invariant
            i <= seen@.len(),
            forall|j: int| 0 <= j < i ==> seen@[j] != *id,
        decreases seen@.len() - i,
    {
        if bytes_eq(&seen[i], id) {
            return true;
        }
        i = i + 1;
    }
    false
}

/// Verify the finality proof `proof` against the recognized authority set
/// `set`. Returns `Ok(())` iff authorities carrying strictly more than two
/// thirds of total weight validly precommitted to the commit target under
/// the proof's set id and round (see [`lemma_finality_accepts_iff`]); the
/// error is the first one met, in the order of the checks.
pub fn verify_finality_proof(set: &GrandpaAuthoritySet, proof: &GrandpaFinalityProof) -> (r: Result<
    (),
    GrandpaVerifyError,
>)
    ensures
        r == finality_outcome(*set, proof@),
{
    if proof.set_id != set.set_id {
        return Err(GrandpaVerifyError::SetIdMismatch);
    }
    let total = set.total_weight();
    let mut seen: Vec<[u8; 32]> = Vec::new();
    let mut acc: u64 = 0;
    let mut i: usize = 0;
    while i < proof.precommits.len()
        invariant
            i <= proof.precommits@.len(),
            proof.set_id == set.set_id,
            total == saturating_weight_sum(set.authorities@),
            finality_scan(*set, proof@, i as nat) == Ok::<(Seq<[u8; 32]>, u64), GrandpaVerifyError>(
                (seen@, acc),
            ),
        decreases proof.precommits@.len() - i,
    {
        let sp = &proof.precommits[i];
        if bytes_eq(&sp.target_hash, &proof.target_hash) && sp.target_number
            == proof.target_number {
            let weight = match find_authority_weight(&set.authorities, &sp.authority) {
                Some(w) => w,
                None => {
                    proof {
                        lemma_scan_error_sticks(*set, proof@, (i + 1) as nat, proof.precommits@.len());
                    }
                    return Err(GrandpaVerifyError::UnknownAuthority);
                },
            };
            if contains_id(&seen, &sp.authority) {
                proof {
                    lemma_scan_error_sticks(*set, proof@, (i + 1) as nat, proof.precommits@.len());
                }
                return Err(GrandpaVerifyError::DuplicateAuthority);
            }
            match check_precommit_signature(
                &sp.authority,
                &sp.signature,
                &sp.target_hash,
                sp.target_number,
                proof.round,
                proof.set_id,
            ) {
                None => {
                    proof {
                        lemma_scan_error_sticks(*set, proof@, (i + 1) as nat, proof.precommits@.len());
                    }
                    return Err(GrandpaVerifyError::MalformedKey);
                },
                Some(false) => {
                    proof {
                        lemma_scan_error_sticks(*set, proof@, (i + 1) as nat, proof.precommits@.len());
                    }
                    return Err(GrandpaVerifyError::BadSignature);
                },
                Some(true) => {},
            }
            seen.push(sp.authority);
            acc = acc.saturating_add(weight);
        }
        i = i + 1;
    }
    if saturating_mul_u64(acc, 3) > saturating_mul_u64(total, 2) {
        Ok(())
    } else {
        Err(GrandpaVerifyError::NotEnoughWeight)
    }
}

} // verus!
