use ark_bls12_381::{Bls12_381, Fr as TestFr};
use ark_ff::PrimeField;
use ark_groth16::{Groth16, ProvingKey};
use ark_r1cs_std::fields::fp::FpVar;
use ark_r1cs_std::prelude::{AllocVar, EqGadget};
use ark_relations::r1cs::{ConstraintSynthesizer, ConstraintSystemRef, SynthesisError};
use ark_serialize::CanonicalSerialize;
use ark_snark::SNARK;
use ark_std::rand::{rngs::StdRng, SeedableRng};
use parity_scale_codec::Encode;
use sp_core::{ed25519, Pair, H256};

use ferrum::identity;
use ferrum::interop::{Error, Event, Pallet};
use ferrum::origin::{Origin, OriginRule};
use ferrum::perbill::Perbill;
use ferrum::primitives::{
    AccountId, AgeProofPublicInputs, ClearingInstruction, CreditMethod, Did, DidResolution, GrandpaAuthority,
    GrandpaAuthoritySet, GrandpaFinalityProof, OssRegistration, SignedPrecommit, TaxTreaty, TrustRegistryEntry,
    XcmStatus, XsuAmount, MIN_VALIDATOR_BOND,
};
use ferrum::scale::{decode_finality_proof, encode_finality_proof};
use ferrum::zk::age_proof;

fn account(n: u8) -> AccountId {
    [n; 32]
}

fn new_interop() -> Pallet {
    Pallet::new(b"tw".to_vec())
}

fn instr(from: [u8; 2], to: [u8; 2], amount: u128) -> ClearingInstruction {
    ClearingInstruction { from, to, amount: XsuAmount(amount), detail_commitment: [7u8; 32], status: XcmStatus::Pending }
}

fn did(tag: &[u8]) -> Did {
    Did { chain_tag: tag.to_vec(), id: b"subject-1".to_vec() }
}

fn relayer() -> Origin {
    Origin::Signed(account(1))
}

fn root() -> Origin {
    Origin::Root
}

fn keypair(seed: u8) -> ed25519::Pair {
    ed25519::Pair::from_seed(&[seed; 32])
}

fn pubkey(p: &ed25519::Pair) -> [u8; 32] {
    let mut b = [0u8; 32];
    b.copy_from_slice(p.public().as_ref());
    b
}

/// Sign a precommit over GRANDPA's localized payload.
fn sign_precommit(p: &ed25519::Pair, target_hash: H256, target_number: u32, round: u64, set_id: u64) -> [u8; 64] {
    let message = finality_grandpa::Message::Precommit(finality_grandpa::Precommit { target_hash, target_number });
    let payload = sp_consensus_grandpa::localized_payload(round, set_id, &message);
    let sig = p.sign(&payload);
    let mut b = [0u8; 64];
    b.copy_from_slice(sig.as_ref());
    b
}

fn signed_precommit(p: &ed25519::Pair, target_hash: H256, target_number: u32, round: u64, set_id: u64) -> SignedPrecommit {
    SignedPrecommit {
        target_hash: target_hash.0,
        target_number,
        authority: pubkey(p),
        signature: sign_precommit(p, target_hash, target_number, round, set_id),
    }
}

fn authority_set(pairs: &[ed25519::Pair], set_id: u64) -> GrandpaAuthoritySet {
    let authorities = pairs.iter().map(|p| GrandpaAuthority { id: pubkey(p), weight: 1 }).collect();
    GrandpaAuthoritySet { authorities, set_id }
}

/// The SCALE encoding of a finality proof, written with the codec crate.
fn encode_proof(precommits: Vec<SignedPrecommit>, round: u64, set_id: u64, target_hash: H256, target_number: u32) -> Vec<u8> {
    let pcs: Vec<([u8; 32], u32, [u8; 32], [u8; 64])> =
        precommits.iter().map(|p| (p.target_hash, p.target_number, p.authority, p.signature)).collect();
    (round, set_id, target_hash.0, target_number, pcs).encode()
}

fn three_of_four(pairs: &[ed25519::Pair], h: H256, n: u32, round: u64, set_id: u64) -> Vec<SignedPrecommit> {
    vec![
        signed_precommit(&pairs[0], h, n, round, set_id),
        signed_precommit(&pairs[1], h, n, round, set_id),
        signed_precommit(&pairs[2], h, n, round, set_id),
    ]
}

fn four() -> [ed25519::Pair; 4] {
    [keypair(1), keypair(2), keypair(3), keypair(4)]
}

fn tw_entry(country: [u8; 2], key: [u8; 32], scope: &[u8]) -> TrustRegistryEntry {
    TrustRegistryEntry { country, issuer_key_hash: key, scope: scope.to_vec(), active: true }
}

#[test]
fn register_issuer_works() {
    let mut x = new_interop();
    assert_eq!(x.register_issuer(root(), tw_entry(*b"TW", [1u8; 32], b"tax")), Ok(()));
    assert!(x.is_trusted_issuer(*b"TW", [1u8; 32]));
    assert!(x.country_recognized(*b"TW"));
    assert!(x.events().contains(&Event::IssuerRegistered { country: *b"TW", issuer_key_hash: [1u8; 32] }));
}

#[test]
fn register_issuer_requires_federation_origin() {
    let mut x = new_interop();
    assert_eq!(x.register_issuer(relayer(), tw_entry(*b"TW", [1u8; 32], b"tax")), Err(Error::BadOrigin));
    assert!(!x.is_trusted_issuer(*b"TW", [1u8; 32]));
}

#[test]
fn verify_finality_accepts_supermajority_and_advances_head() {
    let mut x = new_interop();
    let (set_id, round) = (5u64, 1u64);
    let pairs = four();
    assert_eq!(x.init_authority_set(root(), *b"TW", authority_set(&pairs, set_id)), Ok(()));
    assert_eq!(x.submit_instruction(relayer(), instr(*b"TW", *b"JP", 1_000)), Ok(()));
    let h = H256::repeat_byte(0xAB);
    let n = 42u32;
    let pcs = three_of_four(&pairs, h, n, round, set_id);
    assert_eq!(x.verify_finality(relayer(), 0, encode_proof(pcs, round, set_id, h, n)), Ok(()));
    assert_eq!(x.instruction(0).unwrap().status, XcmStatus::FinalityVerified);
    assert_eq!(x.finalized_head(*b"TW"), Some((h.0, n)));
    assert!(x.events().contains(&Event::FinalityVerified { id: 0 }));
}

#[test]
fn verify_finality_rejects_insufficient_weight() {
    let mut x = new_interop();
    let (set_id, round) = (5u64, 1u64);
    let pairs = four();
    assert_eq!(x.init_authority_set(root(), *b"TW", authority_set(&pairs, set_id)), Ok(()));
    assert_eq!(x.submit_instruction(relayer(), instr(*b"TW", *b"JP", 1_000)), Ok(()));
    let (h, n) = (H256::repeat_byte(0xAB), 42u32);
    let pcs = vec![signed_precommit(&pairs[0], h, n, round, set_id), signed_precommit(&pairs[1], h, n, round, set_id)];
    assert_eq!(x.verify_finality(relayer(), 0, encode_proof(pcs, round, set_id, h, n)), Err(Error::BadFinalityProof));
    assert_eq!(x.instruction(0).unwrap().status, XcmStatus::Pending);
}

#[test]
fn verify_finality_rejects_forged_signature() {
    let mut x = new_interop();
    let (set_id, round) = (5u64, 1u64);
    let pairs = four();
    assert_eq!(x.init_authority_set(root(), *b"TW", authority_set(&pairs, set_id)), Ok(()));
    assert_eq!(x.submit_instruction(relayer(), instr(*b"TW", *b"JP", 1_000)), Ok(()));
    let (h, n) = (H256::repeat_byte(0xAB), 42u32);
    let mut forged = signed_precommit(&pairs[2], h, n, round, set_id);
    forged.signature[0] ^= 0xFF;
    let pcs = vec![signed_precommit(&pairs[0], h, n, round, set_id), signed_precommit(&pairs[1], h, n, round, set_id), forged];
    assert_eq!(x.verify_finality(relayer(), 0, encode_proof(pcs, round, set_id, h, n)), Err(Error::BadFinalityProof));
}

#[test]
fn verify_finality_rejects_set_id_mismatch() {
    let mut x = new_interop();
    let pairs = four();
    assert_eq!(x.init_authority_set(root(), *b"TW", authority_set(&pairs, 5)), Ok(()));
    assert_eq!(x.submit_instruction(relayer(), instr(*b"TW", *b"JP", 1_000)), Ok(()));
    let (h, n) = (H256::repeat_byte(0xAB), 42u32);
    let pcs = three_of_four(&pairs, h, n, 1, 6);
    assert_eq!(x.verify_finality(relayer(), 0, encode_proof(pcs, 1, 6, h, n)), Err(Error::SetIdMismatch));
}

#[test]
fn verify_finality_rejects_unknown_authority() {
    let mut x = new_interop();
    let (set_id, round) = (5u64, 1u64);
    let pairs = four();
    assert_eq!(x.init_authority_set(root(), *b"TW", authority_set(&pairs, set_id)), Ok(()));
    assert_eq!(x.submit_instruction(relayer(), instr(*b"TW", *b"JP", 1_000)), Ok(()));
    let (h, n) = (H256::repeat_byte(0xAB), 42u32);
    let outsider = keypair(99);
    let pcs = vec![signed_precommit(&pairs[0], h, n, round, set_id), signed_precommit(&outsider, h, n, round, set_id)];
    assert_eq!(x.verify_finality(relayer(), 0, encode_proof(pcs, round, set_id, h, n)), Err(Error::UnknownAuthority));
}

#[test]
fn verify_finality_requires_initialized_set() {
    let mut x = new_interop();
    assert_eq!(x.submit_instruction(relayer(), instr(*b"TW", *b"JP", 1_000)), Ok(()));
    let (h, n) = (H256::repeat_byte(0xAB), 42u32);
    let pcs = vec![signed_precommit(&keypair(1), h, n, 1, 5)];
    assert_eq!(x.verify_finality(relayer(), 0, encode_proof(pcs, 1, 5, h, n)), Err(Error::AuthoritySetNotInitialized));
}

#[test]
fn verify_finality_rejects_empty_and_malformed_proof() {
    let mut x = new_interop();
    let pairs = four();
    assert_eq!(x.init_authority_set(root(), *b"TW", authority_set(&pairs, 5)), Ok(()));
    assert_eq!(x.submit_instruction(relayer(), instr(*b"TW", *b"JP", 1_000)), Ok(()));
    assert_eq!(x.verify_finality(relayer(), 0, Vec::new()), Err(Error::InvalidFinalityProof));
    assert_eq!(x.verify_finality(relayer(), 0, vec![0xFFu8; 8]), Err(Error::MalformedFinalityProof));
}

#[test]
fn verify_finality_rejects_unknown_instruction() {
    let mut x = new_interop();
    let pairs = four();
    assert_eq!(x.init_authority_set(root(), *b"TW", authority_set(&pairs, 5)), Ok(()));
    let (h, n) = (H256::repeat_byte(0xAB), 42u32);
    let pcs = three_of_four(&pairs, h, n, 1, 5);
    assert_eq!(x.verify_finality(relayer(), 99, encode_proof(pcs, 1, 5, h, n)), Err(Error::UnknownInstruction));
}

#[test]
fn rotate_authority_set_increments_set_id() {
    let mut x = new_interop();
    let pairs = four();
    assert_eq!(x.init_authority_set(root(), *b"TW", authority_set(&pairs, 5)), Ok(()));
    let (h, n) = (H256::repeat_byte(0xCD), 100u32);
    let pcs = three_of_four(&pairs, h, n, 1, 5);
    let new_set = authority_set(&[keypair(10), keypair(11), keypair(12)], 6);
    assert_eq!(x.rotate_authority_set(root(), *b"TW", encode_proof(pcs, 1, 5, h, n), new_set), Ok(()));
    assert_eq!(x.authority_set(*b"TW").unwrap().set_id, 6);
    assert!(x.events().contains(&Event::AuthoritySetRotated { country: *b"TW", set_id: 6 }));
}

#[test]
fn rotate_authority_set_rejects_non_sequential_set_id() {
    let mut x = new_interop();
    let pairs = four();
    assert_eq!(x.init_authority_set(root(), *b"TW", authority_set(&pairs, 5)), Ok(()));
    let (h, n) = (H256::repeat_byte(0xCD), 100u32);
    let pcs = three_of_four(&pairs, h, n, 1, 5);
    let new_set = authority_set(&[keypair(10)], 8);
    assert_eq!(
        x.rotate_authority_set(root(), *b"TW", encode_proof(pcs, 1, 5, h, n), new_set),
        Err(Error::NonSequentialSetId)
    );
    assert_eq!(x.authority_set(*b"TW").unwrap().set_id, 5);
}

#[test]
fn net_and_settle_aggregates_verified_instructions() {
    let mut x = new_interop();
    let (set_id, round) = (5u64, 1u64);
    let pairs = four();
    assert_eq!(x.init_authority_set(root(), *b"TW", authority_set(&pairs, set_id)), Ok(()));
    assert_eq!(x.submit_instruction(relayer(), instr(*b"TW", *b"JP", 1_000)), Ok(()));
    assert_eq!(x.submit_instruction(relayer(), instr(*b"TW", *b"JP", 500)), Ok(()));
    assert_eq!(x.submit_instruction(relayer(), instr(*b"TW", *b"JP", 9_999)), Ok(()));
    let (h, n) = (H256::repeat_byte(0xAB), 42u32);
    assert_eq!(x.verify_finality(relayer(), 0, encode_proof(three_of_four(&pairs, h, n, round, set_id), round, set_id, h, n)), Ok(()));
    assert_eq!(x.verify_finality(relayer(), 1, encode_proof(three_of_four(&pairs, h, n, round, set_id), round, set_id, h, n)), Ok(()));
    assert_eq!(x.net_and_settle(root(), 1), Ok(()));
    assert_eq!(x.net_position(*b"TW", *b"JP"), XsuAmount(1_500));
    assert_eq!(x.instruction(0).unwrap().status, XcmStatus::Accepted);
    assert_eq!(x.instruction(1).unwrap().status, XcmStatus::Accepted);
    assert_eq!(x.instruction(2).unwrap().status, XcmStatus::Pending);
}

#[test]
fn resolve_did_routes_local_and_foreign() {
    let mut x = new_interop();
    let registry = identity::Pallet::new(b"tw".to_vec(), OriginRule::SignedBy(account(1)), OriginRule::Root);
    assert_eq!(x.resolve_did(&did(b"tw"), &registry), DidResolution::LocalUnknown);
    assert_eq!(x.resolve_did(&did(b"jp"), &registry), DidResolution::Foreign { country: *b"JP", recognized: false });
    assert_eq!(x.register_issuer(root(), tw_entry(*b"JP", [9u8; 32], b"id")), Ok(()));
    assert_eq!(x.resolve_did(&did(b"jp"), &registry), DidResolution::Foreign { country: *b"JP", recognized: true });
}

fn recognize_jp_issuer(x: &mut Pallet) {
    assert_eq!(x.register_issuer(root(), tw_entry(*b"JP", [9u8; 32], b"id")), Ok(()));
}

fn age_inputs(nullifier: [u8; 32]) -> AgeProofPublicInputs {
    AgeProofPublicInputs { issuer_commitment: [1u8; 32], threshold: 18, nullifier }
}

#[test]
fn verify_foreign_proof_requires_recognized_issuer() {
    let mut x = new_interop();
    assert_eq!(
        x.verify_foreign_proof(relayer(), *b"JP", [9u8; 32], vec![0u8; 8], age_inputs([2u8; 32])),
        Err(Error::IssuerNotRecognized)
    );
}

#[test]
fn verify_foreign_proof_requires_registered_vk() {
    let mut x = new_interop();
    recognize_jp_issuer(&mut x);
    assert_eq!(
        x.verify_foreign_proof(relayer(), *b"JP", [9u8; 32], vec![0u8; 8], age_inputs([2u8; 32])),
        Err(Error::VerifyingKeyNotFound)
    );
}

#[test]
fn register_issuer_vk_requires_recognition_then_malformed_proof_is_rejected() {
    let mut x = new_interop();
    let vk = vec![0xAAu8; 16];
    assert_eq!(x.register_issuer_vk(root(), *b"JP", [9u8; 32], vk.clone()), Err(Error::IssuerNotRecognized));
    recognize_jp_issuer(&mut x);
    assert_eq!(x.register_issuer_vk(root(), *b"JP", [9u8; 32], vk), Ok(()));
    assert_eq!(
        x.verify_foreign_proof(relayer(), *b"JP", [9u8; 32], vec![0xFFu8; 8], age_inputs([2u8; 32])),
        Err(Error::MalformedZkProof)
    );
}

/// A circuit whose public inputs are free.
#[derive(Clone)]
struct Echo {
    xs: Vec<TestFr>,
}

impl ConstraintSynthesizer<TestFr> for Echo {
    fn generate_constraints(self, cs: ConstraintSystemRef<TestFr>) -> Result<(), SynthesisError> {
        let mut vars = Vec::new();
        for x in &self.xs {
            vars.push(FpVar::new_input(cs.clone(), || Ok(*x))?);
        }
        let w = FpVar::new_witness(cs, || Ok(self.xs[0]))?;
        w.enforce_equal(&vars[0])?;
        Ok(())
    }
}

/// A verifying key for three public inputs and a proof for `inputs`.
fn age_key_and_proof(inputs: &AgeProofPublicInputs) -> (Vec<u8>, Vec<u8>) {
    let mut rng = StdRng::seed_from_u64(8);
    let (pk, vk): (ProvingKey<Bls12_381>, _) =
        Groth16::<Bls12_381>::circuit_specific_setup(Echo { xs: vec![TestFr::from(0u64); 3] }, &mut rng).unwrap();
    let xs = age_proof::public_inputs_from(inputs).iter().map(|b| TestFr::from_le_bytes_mod_order(b)).collect();
    let proof = Groth16::<Bls12_381>::prove(&pk, Echo { xs }, &mut rng).unwrap();
    let mut vk_bytes = Vec::new();
    vk.serialize_compressed(&mut vk_bytes).unwrap();
    let mut proof_bytes = Vec::new();
    proof.serialize_compressed(&mut proof_bytes).unwrap();
    (vk_bytes, proof_bytes)
}

#[test]
fn verify_foreign_proof_rejects_replayed_nullifier() {
    let mut x = new_interop();
    recognize_jp_issuer(&mut x);
    let inputs = age_inputs([2u8; 32]);
    let (vk, proof) = age_key_and_proof(&inputs);
    assert_eq!(x.register_issuer_vk(root(), *b"JP", [9u8; 32], vk), Ok(()));
    // the first presentation is accepted and spends the nullifier
    assert_eq!(x.verify_foreign_proof(relayer(), *b"JP", [9u8; 32], proof.clone(), inputs), Ok(()));
    assert!(x.is_nullifier_used([2u8; 32]));
    assert_eq!(
        x.verify_foreign_proof(relayer(), *b"JP", [9u8; 32], proof, age_inputs([2u8; 32])),
        Err(Error::ProofReplayed)
    );
}

#[test]
fn foreign_proof_for_other_inputs_is_invalid() {
    let mut x = new_interop();
    recognize_jp_issuer(&mut x);
    let (vk, proof) = age_key_and_proof(&age_inputs([2u8; 32]));
    assert_eq!(x.register_issuer_vk(root(), *b"JP", [9u8; 32], vk), Ok(()));
    assert_eq!(x.verify_foreign_proof(relayer(), *b"JP", [9u8; 32], proof, age_inputs([3u8; 32])), Err(Error::InvalidZkProof));
    assert!(!x.is_nullifier_used([3u8; 32]));
}

#[test]
fn register_treaty_is_bidirectional() {
    let mut x = new_interop();
    let treaty = TaxTreaty { withholding_cap: Perbill::from_percent(10), method: CreditMethod::Credit, active: true };
    assert_eq!(x.register_treaty(root(), *b"TW", *b"JP", treaty), Ok(()));
    assert!(x.treaty_for(*b"TW", *b"JP").is_some());
    assert!(x.treaty_for(*b"JP", *b"TW").is_some());
    assert!(x.events().contains(&Event::TreatyRegistered { a: *b"TW", b: *b"JP" }));
}

#[test]
fn register_treaty_requires_federation_origin() {
    let mut x = new_interop();
    let treaty = TaxTreaty { withholding_cap: Perbill::from_percent(10), method: CreditMethod::Exemption, active: true };
    assert_eq!(x.register_treaty(relayer(), *b"TW", *b"JP", treaty), Err(Error::BadOrigin));
}

#[test]
fn recognize_foreign_invoice_requires_finalized_head() {
    let mut x = new_interop();
    assert_eq!(x.recognize_foreign_invoice(relayer(), *b"JP", [5u8; 32]), Err(Error::NoFinalizedHead));
    let (set_id, round) = (5u64, 1u64);
    let pairs = four();
    assert_eq!(x.init_authority_set(root(), *b"JP", authority_set(&pairs, set_id)), Ok(()));
    assert_eq!(x.submit_instruction(relayer(), instr(*b"JP", *b"TW", 1)), Ok(()));
    let (h, n) = (H256::repeat_byte(0x11), 7u32);
    assert_eq!(x.verify_finality(relayer(), 0, encode_proof(three_of_four(&pairs, h, n, round, set_id), round, set_id, h, n)), Ok(()));
    assert_eq!(x.recognize_foreign_invoice(relayer(), *b"JP", [5u8; 32]), Ok(()));
    assert!(x.is_recognized_invoice(*b"JP", [5u8; 32]));
}

#[test]
fn oss_register_then_report_creates_destination_instruction() {
    let mut x = new_interop();
    let subject = did(b"tw");
    let reg = OssRegistration { home: *b"TW", vat_id_commitment: [3u8; 32], active: true };
    assert_eq!(x.oss_register(relayer(), did(b"tw"), reg), Ok(()));
    assert!(x.events().contains(&Event::OssRegistered { home: *b"TW" }));
    assert_eq!(x.oss_register(relayer(), did(b"tw"), reg), Err(Error::AlreadyRegisteredOss));
    assert_eq!(x.oss_report(relayer(), subject, *b"DE", XsuAmount(250), [8u8; 32]), Ok(()));
    let created = x.instruction(0).unwrap();
    assert_eq!(created.from, *b"TW");
    assert_eq!(created.to, *b"DE");
    assert_eq!(created.amount, XsuAmount(250));
    assert_eq!(created.status, XcmStatus::Pending);
    assert!(x.events().contains(&Event::OssReported { from: *b"TW", to: *b"DE", amount: XsuAmount(250) }));
}

#[test]
fn oss_report_requires_registration() {
    let mut x = new_interop();
    assert_eq!(x.oss_report(relayer(), did(b"tw"), *b"DE", XsuAmount(10), [0u8; 32]), Err(Error::OssNotRegistered));
}

#[test]
fn register_validator_requires_minimum_bond() {
    let mut x = new_interop();
    assert_eq!(x.register_validator(relayer(), MIN_VALIDATOR_BOND - 1), Err(Error::InsufficientBond));
    assert_eq!(x.register_validator(relayer(), MIN_VALIDATOR_BOND), Ok(()));
    assert_eq!(x.validator_bond(account(1)), Some(MIN_VALIDATOR_BOND));
    assert_eq!(x.register_validator(relayer(), MIN_VALIDATOR_BOND), Err(Error::AlreadyRegistered));
}

#[test]
fn slash_validator_reduces_bond_and_tallies_total() {
    let mut x = new_interop();
    assert_eq!(x.register_validator(relayer(), MIN_VALIDATOR_BOND), Ok(()));
    assert_eq!(x.slash_validator(root(), account(1), 1_000), Ok(()));
    assert_eq!(x.validator_bond(account(1)), Some(MIN_VALIDATOR_BOND - 1_000));
    assert_eq!(x.total_slashed(), 1_000);
    assert!(x.events().contains(&Event::ValidatorSlashed { who: account(1), amount: 1_000 }));
}

#[test]
fn slash_validator_rejects_amount_exceeding_bond() {
    let mut x = new_interop();
    assert_eq!(x.register_validator(relayer(), MIN_VALIDATOR_BOND), Ok(()));
    assert_eq!(x.slash_validator(root(), account(1), MIN_VALIDATOR_BOND + 1), Err(Error::SlashExceedsBond));
}

#[test]
fn slash_validator_rejects_unknown_validator() {
    let mut x = new_interop();
    assert_eq!(x.slash_validator(root(), account(42), 1), Err(Error::UnknownValidator));
}

#[test]
fn finality_proof_encoding_matches_the_codec() {
    let pairs = four();
    let (h, n) = (H256::repeat_byte(0x5A), 9u32);
    let pcs = three_of_four(&pairs, h, n, 3, 7);
    let proof = GrandpaFinalityProof { round: 3, set_id: 7, target_hash: h.0, target_number: n, precommits: pcs.clone() };
    let bytes = encode_finality_proof(&proof);
    assert_eq!(bytes, encode_proof(pcs, 3, 7, h, n));
    assert_eq!(decode_finality_proof(&bytes), Some(proof));
    assert_eq!(decode_finality_proof(&bytes[..bytes.len() - 1]), None);
}

#[test]
fn netting_twice_nets_nothing_more() {
    let mut x = new_interop();
    let (set_id, round) = (5u64, 1u64);
    let pairs = four();
    assert_eq!(x.init_authority_set(root(), *b"TW", authority_set(&pairs, set_id)), Ok(()));
    assert_eq!(x.submit_instruction(relayer(), instr(*b"TW", *b"JP", 1_000)), Ok(()));
    let (h, n) = (H256::repeat_byte(0xAB), 42u32);
    assert_eq!(x.verify_finality(relayer(), 0, encode_proof(three_of_four(&pairs, h, n, round, set_id), round, set_id, h, n)), Ok(()));
    assert_eq!(x.net_and_settle(root(), 1), Ok(()));
    assert_eq!(x.net_and_settle(root(), 2), Ok(()));
    assert_eq!(x.net_position(*b"TW", *b"JP"), XsuAmount(1_000));
    assert_eq!(x.net_and_settle(Origin::Signed(account(9)), 3), Err(Error::BadOrigin));
}
