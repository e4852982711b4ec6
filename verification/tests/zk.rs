use ark_bls12_381::{Bls12_381, Fr as TestFr};
use blake2::{Blake2b512, Digest};
use ark_crypto_primitives::sponge::constraints::CryptographicSpongeVar;
use ark_crypto_primitives::sponge::poseidon::constraints::PoseidonSpongeVar;
use ark_crypto_primitives::sponge::poseidon::{find_poseidon_ark_and_mds, PoseidonConfig, PoseidonSponge};
use ark_crypto_primitives::sponge::{Absorb, CryptographicSponge, FieldBasedCryptographicSponge};
use ark_ff::{Field, PrimeField};
use ark_groth16::Groth16;
use ark_r1cs_std::fields::fp::FpVar;
use ark_r1cs_std::prelude::{AllocVar, Boolean, CondSelectGadget, EqGadget};
use ark_relations::r1cs::{ConstraintSynthesizer, ConstraintSystemRef, SynthesisError};
use ark_serialize::CanonicalSerialize;
use ark_snark::SNARK;
use ark_std::rand::{rngs::StdRng, SeedableRng};

use ferrum::primitives::AgeProofPublicInputs;
use ferrum::zk::age_proof::{public_inputs_from, verify_age_threshold};
use ferrum::zk::bbs::{commit_attributes, derive_nullifier, verify_disclosure, Disclosure};
use ferrum::zk::lottery_eligibility;
use ferrum::zk::lottery_ownership;
use ferrum::zk::tax_bracket::verify_bracket_threshold;
use ferrum::zk::{blake2b_32, decode_proof, decode_vk, is_canonical_scalar, scalar_from_u64, Fr, VerifyError};

/// The 32-byte little-endian encoding of a scalar.
fn fr_bytes(x: TestFr) -> Fr {
    let mut v = Vec::new();
    x.serialize_compressed(&mut v).unwrap();
    let mut a = [0u8; 32];
    a.copy_from_slice(&v);
    a
}

fn fr_list(xs: &[TestFr]) -> Vec<Fr> {
    xs.iter().map(|x| fr_bytes(*x)).collect()
}

/// `age = threshold + diff`
#[derive(Clone)]
struct AgeCircuit<F: Field> {
    age: Option<F>,
    threshold: Option<F>,
    diff: Option<F>,
}

impl<F: PrimeField> ConstraintSynthesizer<F> for AgeCircuit<F> {
    fn generate_constraints(self, cs: ConstraintSystemRef<F>) -> Result<(), SynthesisError> {
        let age_var = FpVar::new_input(cs.clone(), || self.age.ok_or(SynthesisError::AssignmentMissing))?;
        let threshold_var = FpVar::new_input(cs.clone(), || self.threshold.ok_or(SynthesisError::AssignmentMissing))?;
        let diff_var = FpVar::new_witness(cs, || self.diff.ok_or(SynthesisError::AssignmentMissing))?;
        let sum = &threshold_var + &diff_var;
        age_var.enforce_equal(&sum)?;
        Ok(())
    }
}

fn poseidon_config<F: PrimeField>() -> PoseidonConfig<F> {
    let (full_rounds, partial_rounds, alpha, rate, capacity) = (8usize, 57usize, 5u64, 2usize, 1usize);
    let (ark, mds) = find_poseidon_ark_and_mds::<F>(
        F::MODULUS_BIT_SIZE as u64,
        rate,
        full_rounds as u64,
        partial_rounds as u64,
        0,
    );
    PoseidonConfig::new(full_rounds, partial_rounds, alpha, mds, ark, rate, capacity)
}

fn poseidon_hash<F: PrimeField + Absorb>(cfg: &PoseidonConfig<F>, inputs: &[F]) -> F {
    let mut sponge = PoseidonSponge::new(cfg);
    for x in inputs {
        sponge.absorb(x);
    }
    sponge.squeeze_native_field_elements(1)[0]
}

fn poseidon_hash_var<F: PrimeField>(
    cfg: &PoseidonConfig<F>,
    cs: ConstraintSystemRef<F>,
    inputs: &[FpVar<F>],
) -> Result<FpVar<F>, SynthesisError> {
    let mut sponge = PoseidonSpongeVar::new(cs, cfg);
    sponge.absorb(&inputs.to_vec())?;
    Ok(sponge.squeeze_field_elements(1)?.remove(0))
}

#[derive(Clone)]
struct EligibilityCircuit<F: PrimeField> {
    cfg: PoseidonConfig<F>,
    invoice_hash: F,
    merchant_set_root: F,
    draw_id: F,
    threshold: F,
    nullifier: F,
    owner_secret: F,
    age: F,
    age_diff: F,
    path: Vec<(F, bool)>,
}

impl<F: PrimeField> ConstraintSynthesizer<F> for EligibilityCircuit<F> {
    fn generate_constraints(self, cs: ConstraintSystemRef<F>) -> Result<(), SynthesisError> {
        let invoice = FpVar::new_input(cs.clone(), || Ok(self.invoice_hash))?;
        let root = FpVar::new_input(cs.clone(), || Ok(self.merchant_set_root))?;
        let draw = FpVar::new_input(cs.clone(), || Ok(self.draw_id))?;
        let threshold = FpVar::new_input(cs.clone(), || Ok(self.threshold))?;
        let nullifier = FpVar::new_input(cs.clone(), || Ok(self.nullifier))?;
        let owner = FpVar::new_witness(cs.clone(), || Ok(self.owner_secret))?;
        let age = FpVar::new_witness(cs.clone(), || Ok(self.age))?;
        let age_diff = FpVar::new_witness(cs.clone(), || Ok(self.age_diff))?;
        let leaf = poseidon_hash_var(&self.cfg, cs.clone(), &[owner.clone(), invoice.clone()])?;
        let mut cur = leaf;
        for (sib, is_right) in self.path.iter() {
            let sib_var = FpVar::new_witness(cs.clone(), || Ok(*sib))?;
            let b = Boolean::new_witness(cs.clone(), || Ok(*is_right))?;
            let left = FpVar::conditionally_select(&b, &sib_var, &cur)?;
            let right = FpVar::conditionally_select(&b, &cur, &sib_var)?;
            cur = poseidon_hash_var(&self.cfg, cs.clone(), &[left, right])?;
        }
        cur.enforce_equal(&root)?;
        let derived = poseidon_hash_var(&self.cfg, cs.clone(), &[owner, invoice, draw])?;
        derived.enforce_equal(&nullifier)?;
        age.enforce_equal(&(&threshold + &age_diff))?;
        Ok(())
    }
}

#[derive(Clone)]
struct OwnershipCircuit<F: PrimeField> {
    cfg: PoseidonConfig<F>,
    invoice_hash: F,
    owner_commitment: F,
    draw_id: F,
    beneficiary: F,
    nullifier: F,
    viewing_key_commitment: F,
    owner_secret: F,
    vk_secret: F,
}

impl<F: PrimeField> ConstraintSynthesizer<F> for OwnershipCircuit<F> {
    fn generate_constraints(self, cs: ConstraintSystemRef<F>) -> Result<(), SynthesisError> {
        let invoice = FpVar::new_input(cs.clone(), || Ok(self.invoice_hash))?;
        let owner_commitment = FpVar::new_input(cs.clone(), || Ok(self.owner_commitment))?;
        let draw = FpVar::new_input(cs.clone(), || Ok(self.draw_id))?;
        let beneficiary = FpVar::new_input(cs.clone(), || Ok(self.beneficiary))?;
        let nullifier = FpVar::new_input(cs.clone(), || Ok(self.nullifier))?;
        let vk_commitment = FpVar::new_input(cs.clone(), || Ok(self.viewing_key_commitment))?;
        let owner = FpVar::new_witness(cs.clone(), || Ok(self.owner_secret))?;
        let vk_secret = FpVar::new_witness(cs.clone(), || Ok(self.vk_secret))?;
        let oc = poseidon_hash_var(&self.cfg, cs.clone(), &[owner.clone(), invoice.clone()])?;
        owner_commitment.enforce_equal(&oc)?;
        let null = poseidon_hash_var(&self.cfg, cs.clone(), &[owner, invoice, draw])?;
        nullifier.enforce_equal(&null)?;
        let vkc = poseidon_hash_var(&self.cfg, cs.clone(), &[vk_secret, beneficiary])?;
        vk_commitment.enforce_equal(&vkc)?;
        Ok(())
    }
}

#[test]
fn public_inputs_from_orders_fields_correctly() {
    let inputs = AgeProofPublicInputs { issuer_commitment: [1u8; 32], threshold: 18, nullifier: [2u8; 32] };
    let fe = public_inputs_from(&inputs);
    assert_eq!(fe.len(), 3);
    assert_eq!(fe[0], fr_bytes(TestFr::from_le_bytes_mod_order(&[1u8; 32])));
    assert_eq!(fe[1], fr_bytes(TestFr::from(18u64)));
    assert_eq!(fe[2], fr_bytes(TestFr::from_le_bytes_mod_order(&[2u8; 32])));
}

#[test]
fn decode_proof_rejects_garbage() {
    let bytes = vec![0xFFu8; 32];
    assert!(matches!(decode_proof(&bytes), Err(VerifyError::Malformed)));
}

#[test]
fn decode_vk_rejects_garbage() {
    let bytes = vec![0xAAu8; 16];
    assert!(matches!(decode_vk(&bytes), Err(VerifyError::Malformed)));
}

#[test]
fn end_to_end_groth16_roundtrip() {
    let mut rng = StdRng::seed_from_u64(42);
    let circuit = AgeCircuit::<TestFr> {
        age: Some(TestFr::from(21u64)),
        threshold: Some(TestFr::from(18u64)),
        diff: Some(TestFr::from(3u64)),
    };
    let (pk, vk) = Groth16::<Bls12_381>::circuit_specific_setup(circuit.clone(), &mut rng).unwrap();
    let pvk = ark_groth16::prepare_verifying_key(&vk);
    let proof = Groth16::<Bls12_381>::prove(&pk, circuit, &mut rng).unwrap();
    let public_inputs = [TestFr::from(21u64), TestFr::from(18u64)];

    let mut proof_buf = Vec::new();
    proof.serialize_compressed(&mut proof_buf).unwrap();
    let mut vk_buf = Vec::new();
    vk.serialize_compressed(&mut vk_buf).unwrap();

    let decoded_proof = decode_proof(&proof_buf).unwrap();
    let decoded_pvk = decode_vk(&vk_buf).unwrap();

    assert!(verify_age_threshold(&decoded_proof, &decoded_pvk, &fr_list(&public_inputs)).unwrap());
    assert!(Groth16::<Bls12_381>::verify_with_processed_vk(&pvk, &public_inputs, &proof).unwrap());
}

#[test]
fn decode_rejects_garbage() {
    let bytes = Vec::from([0xFFu8; 32]);
    assert!(matches!(decode_proof(&bytes), Err(VerifyError::Malformed)));
}

#[test]
fn end_to_end_bracket_proof() {
    let mut rng = StdRng::seed_from_u64(7);
    let circuit = AgeCircuit::<TestFr> {
        age: Some(TestFr::from(55_000u64)),
        threshold: Some(TestFr::from(50_000u64)),
        diff: Some(TestFr::from(5_000u64)),
    };
    let (pk, vk) = Groth16::<Bls12_381>::circuit_specific_setup(circuit.clone(), &mut rng).unwrap();
    let pvk = ark_groth16::prepare_verifying_key(&vk);
    let proof = Groth16::<Bls12_381>::prove(&pk, circuit, &mut rng).unwrap();
    let public_inputs = [TestFr::from(55_000u64), TestFr::from(50_000u64)];

    let mut proof_buf = Vec::new();
    proof.serialize_compressed(&mut proof_buf).unwrap();
    let mut vk_buf = Vec::new();
    vk.serialize_compressed(&mut vk_buf).unwrap();

    let decoded_proof = decode_proof(&proof_buf).unwrap();
    let decoded_pvk = decode_vk(&vk_buf).unwrap();

    assert!(verify_bracket_threshold(&decoded_proof, &decoded_pvk, &fr_list(&public_inputs)).unwrap());
    assert!(Groth16::<Bls12_381>::verify_with_processed_vk(&pvk, &public_inputs, &proof).unwrap());
    // a wrong threshold is a valid-but-false verdict, not an error
    let wrong = [TestFr::from(55_000u64), TestFr::from(60_000u64)];
    assert!(!verify_bracket_threshold(&decoded_proof, &decoded_pvk, &fr_list(&wrong)).unwrap());
}

#[test]
fn lottery_eligibility_public_inputs_order_matches() {
    let pi = lottery_eligibility::public_inputs_from_fields(&[3u8; 32], &[4u8; 32], 9, 18, &[5u8; 32]);
    assert_eq!(pi.len(), 5);
    assert_eq!(pi[2], fr_bytes(TestFr::from(9u64)));
    assert_eq!(pi[3], fr_bytes(TestFr::from(18u64)));
}

#[test]
fn end_to_end_eligibility_proof() {
    let mut rng = StdRng::seed_from_u64(11);
    let cfg = poseidon_config::<TestFr>();
    let f = |n: u64| TestFr::from(n);

    let owner = f(123_456_789);
    let invoice = f(7);
    let draw = f(3);
    let threshold = f(18);
    let leaf = poseidon_hash(&cfg, &[owner, invoice]);
    let path = vec![(f(11), false), (f(22), true), (f(33), false)];
    let mut cur = leaf;
    for (sib, is_right) in &path {
        cur = if *is_right { poseidon_hash(&cfg, &[*sib, cur]) } else { poseidon_hash(&cfg, &[cur, *sib]) };
    }
    let root = cur;
    let nullifier = poseidon_hash(&cfg, &[owner, invoice, draw]);

    let circuit = EligibilityCircuit::<TestFr> {
        cfg: cfg.clone(),
        invoice_hash: invoice,
        merchant_set_root: root,
        draw_id: draw,
        threshold,
        nullifier,
        owner_secret: owner,
        age: f(21),
        age_diff: f(3),
        path,
    };
    let (pk, vk) = Groth16::<Bls12_381>::circuit_specific_setup(circuit.clone(), &mut rng).unwrap();
    let pvk = ark_groth16::prepare_verifying_key(&vk);
    let proof = Groth16::<Bls12_381>::prove(&pk, circuit, &mut rng).unwrap();
    let public_inputs = [invoice, root, draw, threshold, nullifier];

    let mut proof_buf = Vec::new();
    proof.serialize_compressed(&mut proof_buf).unwrap();
    let mut vk_buf = Vec::new();
    vk.serialize_compressed(&mut vk_buf).unwrap();

    let decoded_proof = decode_proof(&proof_buf).unwrap();
    let decoded_pvk = decode_vk(&vk_buf).unwrap();

    assert!(lottery_eligibility::verify_eligibility(&decoded_proof, &decoded_pvk, &fr_list(&public_inputs)).unwrap());
    assert!(Groth16::<Bls12_381>::verify_with_processed_vk(&pvk, &public_inputs, &proof).unwrap());

    let bad = [invoice, f(999), draw, threshold, nullifier];
    assert!(!lottery_eligibility::verify_eligibility(&decoded_proof, &decoded_pvk, &fr_list(&bad)).unwrap());

    // the byte-level entry point binds the fields the same way
    let ok = lottery_eligibility::verify(
        &proof_buf,
        &vk_buf,
        &fr_bytes(invoice),
        &fr_bytes(root),
        3,
        18,
        &fr_bytes(nullifier),
    );
    assert_eq!(ok, Ok(true));
}

#[test]
fn lottery_ownership_public_inputs_order_matches() {
    let pi = lottery_ownership::public_inputs_from_fields(&[1u8; 32], &[2u8; 32], 5, &[3u8; 32], &[4u8; 32], &[6u8; 32]);
    assert_eq!(pi.len(), 6);
    assert_eq!(pi[2], fr_bytes(TestFr::from(5u64)));
}

#[test]
fn end_to_end_ownership_proof() {
    let mut rng = StdRng::seed_from_u64(23);
    let cfg = poseidon_config::<TestFr>();
    let f = |n: u64| TestFr::from(n);

    let owner = f(555);
    let invoice = f(7);
    let draw = f(3);
    let beneficiary = f(9);
    let vk_secret = f(4);
    let owner_commitment = poseidon_hash(&cfg, &[owner, invoice]);
    let nullifier = poseidon_hash(&cfg, &[owner, invoice, draw]);
    let viewing_key_commitment = poseidon_hash(&cfg, &[vk_secret, beneficiary]);

    let circuit = OwnershipCircuit::<TestFr> {
        cfg: cfg.clone(),
        invoice_hash: invoice,
        owner_commitment,
        draw_id: draw,
        beneficiary,
        nullifier,
        viewing_key_commitment,
        owner_secret: owner,
        vk_secret,
    };
    let (pk, vk) = Groth16::<Bls12_381>::circuit_specific_setup(circuit.clone(), &mut rng).unwrap();
    let proof = Groth16::<Bls12_381>::prove(&pk, circuit, &mut rng).unwrap();
    let public_inputs = [invoice, owner_commitment, draw, beneficiary, nullifier, viewing_key_commitment];

    let mut proof_buf = Vec::new();
    proof.serialize_compressed(&mut proof_buf).unwrap();
    let mut vk_buf = Vec::new();
    vk.serialize_compressed(&mut vk_buf).unwrap();

    let decoded_proof = decode_proof(&proof_buf).unwrap();
    let decoded_pvk = decode_vk(&vk_buf).unwrap();
    assert!(lottery_ownership::verify_ownership(&decoded_proof, &decoded_pvk, &fr_list(&public_inputs)).unwrap());

    let redirected = [invoice, owner_commitment, draw, f(99), nullifier, viewing_key_commitment];
    assert!(!lottery_ownership::verify_ownership(&decoded_proof, &decoded_pvk, &fr_list(&redirected)).unwrap());
}

#[test]
fn detects_canonical_and_non_canonical_scalars() {
    assert!(is_canonical_scalar(&[0u8; 32]));
    let mut small = [0u8; 32];
    small[0] = 1;
    assert!(is_canonical_scalar(&small));
    assert!(!is_canonical_scalar(&[0xFFu8; 32]));
    assert!(is_canonical_scalar(&[12u8; 32]), "12*32 should be canonical");
    assert!(is_canonical_scalar(&[13u8; 32]), "13*32 should be canonical");
}

#[test]
fn scalar_from_u64_is_little_endian() {
    let s = scalar_from_u64(0x0102);
    assert_eq!(s[0], 2);
    assert_eq!(s[1], 1);
    assert!(s[2..].iter().all(|b| *b == 0));
    assert_eq!(s, fr_bytes(TestFr::from(0x0102u64)));
}

#[test]
fn commit_attributes_is_deterministic() {
    let a = [[1u8; 32], [2u8; 32], [3u8; 32]];
    let c1 = commit_attributes(&a);
    let c2 = commit_attributes(&a);
    assert_eq!(c1, c2);
}

#[test]
fn commit_attributes_order_sensitive() {
    let a = [[1u8; 32], [2u8; 32]];
    let b = [[2u8; 32], [1u8; 32]];
    assert_ne!(commit_attributes(&a), commit_attributes(&b));
}

#[test]
fn verify_disclosure_rejects_out_of_range_index() {
    let d = Disclosure { revealed: vec![(5, [9u8; 32])], hidden_commitment: [7u8; 32], nullifier: [0u8; 32] };
    assert!(!verify_disclosure(&d, 3, None));
}

#[test]
fn verify_disclosure_rejects_duplicate_index() {
    let d = Disclosure {
        revealed: vec![(0, [1u8; 32]), (0, [2u8; 32])],
        hidden_commitment: [7u8; 32],
        nullifier: [0u8; 32],
    };
    assert!(!verify_disclosure(&d, 3, None));
}

#[test]
fn verify_disclosure_round_trip_with_commitment() {
    let revealed = vec![(0u32, [1u8; 32]), (2u32, [3u8; 32])];
    let hidden_commitment = [9u8; 32];
    let mut buf = Vec::new();
    for (_, h) in &revealed {
        buf.extend_from_slice(h);
    }
    buf.extend_from_slice(&hidden_commitment);
    let top = blake2b_32(&buf);
    let d = Disclosure { revealed, hidden_commitment, nullifier: derive_nullifier(&[5u8; 32], b"verifier-1") };
    assert!(verify_disclosure(&d, 3, Some(&top)));
    assert!(!verify_disclosure(&d, 3, Some(&[0u8; 32])));
}

#[test]
fn derive_nullifier_is_deterministic_and_tag_sensitive() {
    let h = [1u8; 32];
    let n1 = derive_nullifier(&h, b"verifier-a");
    let n2 = derive_nullifier(&h, b"verifier-a");
    let n3 = derive_nullifier(&h, b"verifier-b");
    assert_eq!(n1, n2);
    assert_ne!(n1, n3);
}

#[test]
fn blake2b_32_is_prefix_of_blake2b_512() {
    let mut h = Blake2b512::new();
    h.update(b"ferrum");
    let full = h.finalize();
    assert_eq!(blake2b_32(b"ferrum").to_vec(), full[..32].to_vec());
}

#[test]
fn public_inputs_reduce_non_canonical_hashes() {
    let inputs = AgeProofPublicInputs { issuer_commitment: [0xFFu8; 32], threshold: 21, nullifier: [0xEEu8; 32] };
    let fe = public_inputs_from(&inputs);
    assert_eq!(fe[0], fr_bytes(TestFr::from_le_bytes_mod_order(&[0xFFu8; 32])));
    assert_ne!(fe[0], [0xFFu8; 32]);
    assert!(is_canonical_scalar(&fe[0]));
    assert_eq!(fe[2], fr_bytes(TestFr::from_le_bytes_mod_order(&[0xEEu8; 32])));
}
