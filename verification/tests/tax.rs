use ferrum::origin::{Origin, OriginRule};
use ferrum::primitives::{AccountId, AgeProofPublicInputs, Did, FiatAmount, Hash32, InvoiceAnchor, TaxKind, TaxObligation};
use ferrum::tax::{Error, Event, Pallet, TreasurySettle};
use ferrum::treasury;

use ark_bls12_381::{Bls12_381, Fr as TestFr};
use ark_ff::PrimeField;
use ark_groth16::Groth16;
use ark_r1cs_std::fields::fp::FpVar;
use ark_r1cs_std::prelude::{AllocVar, EqGadget};
use ark_relations::r1cs::{ConstraintSynthesizer, ConstraintSystemRef, SynthesisError};
use ark_serialize::CanonicalSerialize;
use ark_snark::SNARK;
use ark_std::rand::{rngs::StdRng, SeedableRng};

/// A circuit over the bracket statement's three public inputs: the
/// commitment equals the threshold plus a private margin.
#[derive(Clone)]
struct MarginCircuit {
    commitment: TestFr,
    threshold: TestFr,
    nullifier: TestFr,
    margin: TestFr,
}

impl ConstraintSynthesizer<TestFr> for MarginCircuit {
    fn generate_constraints(self, cs: ConstraintSystemRef<TestFr>) -> Result<(), SynthesisError> {
        let c = FpVar::new_input(cs.clone(), || Ok(self.commitment))?;
        let t = FpVar::new_input(cs.clone(), || Ok(self.threshold))?;
        let n = FpVar::new_input(cs.clone(), || Ok(self.nullifier))?;
        let m = FpVar::new_witness(cs.clone(), || Ok(self.margin))?;
        c.enforce_equal(&(&t + &m))?;
        n.enforce_equal(&n)?;
        Ok(())
    }
}

fn account(n: u8) -> AccountId {
    [n; 32]
}

/// A treasury that accepts every settlement.
struct MockTreasury;

impl TreasurySettle for MockTreasury {
    fn settle_fiat(&mut self, _payer: &AccountId, _receipt: Hash32, _amount: FiatAmount) -> Result<(), treasury::Error> {
        Ok(())
    }
}

fn new_tax() -> Pallet {
    Pallet::new(OriginRule::AnySigned, OriginRule::Root)
}

fn sample_did() -> Did {
    Did { chain_tag: b"tw".to_vec(), id: b"alice-tax-id".to_vec() }
}

fn sample_invoice(hash: [u8; 32]) -> InvoiceAnchor {
    InvoiceAnchor { invoice_hash: hash, issuer: account(1), kind: TaxKind::ValueAdded, anchored_at: 1_700_000_000_000 }
}

fn sample_obligation(subject: Did, settled: bool) -> TaxObligation {
    TaxObligation {
        subject,
        kind: TaxKind::Income,
        amount_due: FiatAmount { currency: *b"TWD", minor_units: 123_456 },
        detail_commitment: [7u8; 32],
        settled,
    }
}

#[test]
fn anchor_invoice_works() {
    let mut tax = new_tax();
    let anchor = sample_invoice([1u8; 32]);
    assert_eq!(tax.anchor_invoice(Origin::Signed(account(1)), anchor), Ok(()));
    assert_eq!(tax.invoice(&[1u8; 32]), Some(anchor));
}

#[test]
fn anchor_invoice_rejects_duplicate() {
    let mut tax = new_tax();
    let anchor = sample_invoice([2u8; 32]);
    assert_eq!(tax.anchor_invoice(Origin::Signed(account(1)), anchor), Ok(()));
    assert_eq!(tax.anchor_invoice(Origin::Signed(account(1)), anchor), Err(Error::InvoiceAlreadyAnchored));
}

#[test]
fn withhold_emits_event() {
    let mut tax = new_tax();
    tax.set_block_number(1);
    let amount = FiatAmount { currency: *b"TWD", minor_units: 5_000 };
    assert_eq!(tax.withhold(Origin::Signed(account(1)), sample_did(), TaxKind::Wage, amount), Ok(()));
    assert_eq!(tax.events().last(), Some(&Event::Withheld { subject: sample_did(), kind: TaxKind::Wage, amount }));
}

#[test]
fn file_obligation_stores_record() {
    let mut tax = new_tax();
    tax.set_block_number(10);
    let obligation = sample_obligation(sample_did(), false);
    let due = obligation.amount_due;
    assert_eq!(tax.file_obligation(Origin::Signed(account(1)), obligation), Ok(()));
    let stored = tax.obligation(&sample_did(), 10u64).unwrap();
    assert_eq!(stored.amount_due, due);
    assert!(!stored.settled);
}

#[test]
fn settle_pays_and_marks_settled() {
    let mut tax = new_tax();
    let mut treasury = MockTreasury;
    tax.set_block_number(5);
    assert_eq!(tax.file_obligation(Origin::Signed(account(1)), sample_obligation(sample_did(), false)), Ok(()));
    assert_eq!(tax.settle(Origin::Signed(account(1)), sample_did(), 5, &mut treasury), Ok(()));
    let stored = tax.obligation(&sample_did(), 5u64).unwrap();
    assert!(stored.settled);
}

#[test]
fn settle_fails_if_not_found() {
    let mut tax = new_tax();
    let mut treasury = MockTreasury;
    assert_eq!(tax.settle(Origin::Signed(account(1)), sample_did(), 99, &mut treasury), Err(Error::ObligationNotFound));
}

#[test]
fn settle_fails_if_already_settled() {
    let mut tax = new_tax();
    let mut treasury = MockTreasury;
    tax.set_block_number(7);
    assert_eq!(tax.file_obligation(Origin::Signed(account(1)), sample_obligation(sample_did(), false)), Ok(()));
    assert_eq!(tax.settle(Origin::Signed(account(1)), sample_did(), 7, &mut treasury), Ok(()));
    assert_eq!(tax.settle(Origin::Signed(account(1)), sample_did(), 7, &mut treasury), Err(Error::AlreadySettled));
}

#[test]
fn authorize_audit_requires_existing_invoice() {
    let mut tax = new_tax();
    assert_eq!(tax.authorize_audit(Origin::Signed(account(1)), [9u8; 32], [8u8; 32]), Err(Error::InvoiceNotFound));
}

#[test]
fn authorize_audit_records_commitment() {
    let mut tax = new_tax();
    assert_eq!(tax.anchor_invoice(Origin::Signed(account(1)), sample_invoice([3u8; 32])), Ok(()));
    assert_eq!(tax.authorize_audit(Origin::Signed(account(1)), [3u8; 32], [4u8; 32]), Ok(()));
    assert_eq!(tax.audit_entry(&[3u8; 32]), Some([4u8; 32]));
}

#[test]
fn set_brackets_requires_governance() {
    let mut tax = new_tax();
    assert_eq!(tax.set_brackets(Origin::Signed(account(1)), Vec::new()), Err(Error::BadOrigin));
    assert_eq!(tax.set_brackets(Origin::Root, Vec::new()), Ok(()));
    assert_eq!(tax.bracket_count(), 0);
}

#[test]
fn settle_through_the_treasury_records_the_receipt_once() {
    let mut tax = new_tax();
    let mut treasury = treasury::Pallet::new(OriginRule::Root);
    tax.set_block_number(3);
    assert_eq!(tax.file_obligation(Origin::Signed(account(1)), sample_obligation(sample_did(), false)), Ok(()));
    assert_eq!(tax.settle(Origin::Signed(account(2)), sample_did(), 3, &mut treasury), Ok(()));
    let mut preimage = vec![7u8; 32];
    preimage.extend_from_slice(&3u64.to_le_bytes());
    let receipt = sp_crypto_hashing::blake2_256(&preimage);
    assert_eq!(treasury.receipt(&receipt), Some(FiatAmount { currency: *b"TWD", minor_units: 123_456 }));
    assert_eq!(treasury.receipt(&[7u8; 32]), None);
    // the same commitment filed for another slot settles under a receipt of its own
    tax.set_block_number(4);
    assert_eq!(tax.file_obligation(Origin::Signed(account(1)), sample_obligation(sample_did(), false)), Ok(()));
    assert_eq!(tax.settle(Origin::Signed(account(2)), sample_did(), 4, &mut treasury), Ok(()));
    assert!(tax.obligation(&sample_did(), 4u64).unwrap().settled);
    let mut preimage4 = vec![7u8; 32];
    preimage4.extend_from_slice(&4u64.to_le_bytes());
    assert!(treasury.receipt(&sp_crypto_hashing::blake2_256(&preimage4)).is_some());
}

#[test]
fn settle_receipt_differs_by_slot() {
    let a = ferrum::tax::settle_receipt(&[7u8; 32], 3);
    let b = ferrum::tax::settle_receipt(&[7u8; 32], 4);
    assert_ne!(a, b);
    assert_ne!(a, [7u8; 32]);
}

#[test]
fn a_refused_settlement_leaves_the_obligation_open() {
    let mut tax = new_tax();
    let mut treasury = treasury::Pallet::new(OriginRule::Root);
    tax.set_block_number(3);
    assert_eq!(tax.file_obligation(Origin::Signed(account(1)), sample_obligation(sample_did(), false)), Ok(()));
    let receipt = ferrum::tax::settle_receipt(&[7u8; 32], 3);
    assert_eq!(treasury.settle_fiat(&account(9), receipt, FiatAmount { currency: *b"TWD", minor_units: 1 }), Ok(()));
    assert_eq!(
        tax.settle(Origin::Signed(account(2)), sample_did(), 3, &mut treasury),
        Err(Error::Treasury(treasury::Error::ReceiptAlreadyRecorded))
    );
    assert!(!tax.obligation(&sample_did(), 3u64).unwrap().settled);
}

#[test]
fn set_bracket_vk_requires_governance() {
    let mut tax = new_tax();
    assert_eq!(tax.set_bracket_vk(Origin::Signed(account(1)), vec![1u8, 2, 3]), Err(Error::BadOrigin));
    assert_eq!(tax.set_bracket_vk(Origin::Root, vec![1u8, 2, 3]), Ok(()));
    let inputs = AgeProofPublicInputs { issuer_commitment: [1u8; 32], threshold: 18, nullifier: [2u8; 32] };
    // a key that does not decode makes every proof malformed
    assert_eq!(tax.prove_bracket(Origin::Signed(account(1)), vec![0xFFu8; 32], inputs), Err(Error::MalformedProof));
}

#[test]
fn prove_bracket_without_a_key_is_malformed() {
    let mut tax = new_tax();
    let inputs = AgeProofPublicInputs { issuer_commitment: [1u8; 32], threshold: 18, nullifier: [2u8; 32] };
    assert_eq!(tax.prove_bracket(Origin::Signed(account(1)), vec![0xFFu8; 32], inputs), Err(Error::MalformedProof));
    assert_eq!(tax.prove_bracket(Origin::Unsigned, vec![0xFFu8; 32], inputs), Err(Error::BadOrigin));
    assert!(tax.events().is_empty());
}

#[test]
fn anchoring_requires_a_signer() {
    let mut tax = new_tax();
    assert_eq!(tax.anchor_invoice(Origin::Unsigned, sample_invoice([1u8; 32])), Err(Error::BadOrigin));
    assert_eq!(tax.invoice(&[1u8; 32]), None);
}

#[test]
fn prove_bracket_accepts_a_valid_proof_under_the_governed_key() {
    let inputs = AgeProofPublicInputs { issuer_commitment: [1u8; 32], threshold: 18, nullifier: [2u8; 32] };
    let commitment = TestFr::from_le_bytes_mod_order(&[1u8; 32]);
    let threshold = TestFr::from(18u64);
    let circuit = MarginCircuit {
        commitment,
        threshold,
        nullifier: TestFr::from_le_bytes_mod_order(&[2u8; 32]),
        margin: commitment - threshold,
    };
    let mut rng = StdRng::seed_from_u64(11);
    let (pk, vk) = Groth16::<Bls12_381>::circuit_specific_setup(circuit.clone(), &mut rng).unwrap();
    let proof = Groth16::<Bls12_381>::prove(&pk, circuit, &mut rng).unwrap();
    let mut proof_buf = Vec::new();
    proof.serialize_compressed(&mut proof_buf).unwrap();
    let mut vk_buf = Vec::new();
    vk.serialize_compressed(&mut vk_buf).unwrap();

    let mut tax = new_tax();
    // before governance installs the key every proof is malformed
    assert_eq!(tax.prove_bracket(Origin::Signed(account(1)), proof_buf.clone(), inputs), Err(Error::MalformedProof));
    assert_eq!(tax.set_bracket_vk(Origin::Root, vk_buf), Ok(()));
    assert_eq!(tax.prove_bracket(Origin::Signed(account(1)), proof_buf.clone(), inputs), Ok(()));
    assert_eq!(tax.events().last(), Some(&Event::BracketProven { nullifier: [2u8; 32] }));
    // the same proof against another threshold is refused
    let other = AgeProofPublicInputs { threshold: 19, ..inputs };
    assert_eq!(tax.prove_bracket(Origin::Signed(account(1)), proof_buf, other), Err(Error::InvalidProof));
}
