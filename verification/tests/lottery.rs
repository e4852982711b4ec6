use std::collections::{BTreeSet, HashMap};

use ark_bls12_381::{Bls12_381, Fr as TestFr};
use ark_ff::PrimeField;
use ark_groth16::{Groth16, ProvingKey};
use ark_r1cs_std::fields::fp::FpVar;
use ark_r1cs_std::prelude::{AllocVar, EqGadget};
use ark_relations::r1cs::{ConstraintSynthesizer, ConstraintSystemRef, SynthesisError};
use ark_serialize::CanonicalSerialize;
use ark_snark::SNARK;
use ark_std::rand::{rngs::StdRng, SeedableRng};

use ferrum::lottery::draw::{tax_kind_from_u8, MAX_PROBES};
use ferrum::lottery::types::{DrawConfig, DrawState, PrizeTier};
use ferrum::lottery::{
    AttestedReserve, Error, Event, GenesisConfig, InvoiceRegistry, LotteryParams, Pallet, ReservableCurrency,
    TreasuryPayout,
};
use ferrum::origin::{Origin, OriginRule};
use ferrum::primitives::{AccountId, Balance, BlockNumber, FiatAmount, Hash32, Nullifier, TaxKind};
use ferrum::zk::{lottery_eligibility, lottery_ownership};

const TWD: [u8; 3] = *b"TWD";

fn account(n: u8) -> AccountId {
    [n; 32]
}

fn etwd(minor: u128) -> FiatAmount {
    FiatAmount { currency: TWD, minor_units: minor }
}

fn tier(id: u8, share: u32, winners: u32, cap: u128) -> PrizeTier {
    PrizeTier { tier_id: id, share_ppm: share, winners, unit_cap: etwd(cap) }
}

fn base_cfg() -> DrawConfig {
    DrawConfig {
        period_blocks: 100,
        eligible_kinds: vec![TaxKind::ValueAdded],
        tax_ratio_ppm: 2_000,
        reserve_cap_ppm: 50_000,
        tiers: vec![tier(0, 1_000_000, 1, 1_000_000)],
        allow_foreign: false,
        commit_deadline: 1_000,
        reveal_deadline: 1_000,
        finalize_block: 2_000,
        claim_window: 100,
    }
}

fn params() -> LotteryParams {
    LotteryParams {
        prize_currency: TWD,
        max_ratio_ppm: 20_000,
        min_reveals: 1,
        commit_deposit: 1_000,
        age_threshold: 18,
        block_hash_count: 10,
        governance: OriginRule::Root,
        emergency: OriginRule::Root,
        registrar: OriginRule::Root,
    }
}

/// The anchored invoices: kind and anchoring block.
#[derive(Default)]
struct MockTax {
    invoices: HashMap<Hash32, (TaxKind, BlockNumber)>,
}

impl MockTax {
    fn anchor(&mut self, hash: Hash32, kind: TaxKind, block: BlockNumber) {
        self.invoices.insert(hash, (kind, block));
    }
}

impl InvoiceRegistry for MockTax {
    fn invoice_kind(&self, invoice_hash: &Hash32) -> Option<TaxKind> {
        self.invoices.get(invoice_hash).map(|(k, _)| *k)
    }

    fn anchored_block(&self, invoice_hash: &Hash32) -> Option<BlockNumber> {
        self.invoices.get(invoice_hash).map(|(_, b)| *b)
    }

    fn is_anchored(&self, invoice_hash: &Hash32) -> bool {
        self.invoices.contains_key(invoice_hash)
    }
}

/// Records the prize receipts.
#[derive(Default)]
struct MockTreasury {
    receipts: Vec<(AccountId, Hash32, FiatAmount)>,
}

impl TreasuryPayout for MockTreasury {
    fn credit_fiat(&mut self, beneficiary: &AccountId, receipt_key: Hash32, amount: FiatAmount) -> Result<(), Error> {
        self.receipts.push((*beneficiary, receipt_key, amount));
        Ok(())
    }
}

/// The attested eTWD reserve.
#[derive(Default)]
struct MockReserve {
    reserve: Option<FiatAmount>,
}

impl AttestedReserve for MockReserve {
    fn attested_balance(&self) -> FiatAmount {
        self.reserve.unwrap_or(etwd(0))
    }

    fn try_debit(&mut self, amount: FiatAmount) -> Result<(), Error> {
        match &mut self.reserve {
            Some(res) if res.currency == amount.currency && res.minor_units >= amount.minor_units => {
                res.minor_units -= amount.minor_units;
                Ok(())
            },
            _ => Err(Error::InsufficientReserve),
        }
    }

    fn credit(&mut self, amount: FiatAmount) {
        match &mut self.reserve {
            Some(res) => res.minor_units = res.minor_units.saturating_add(amount.minor_units),
            None => self.reserve = Some(amount),
        }
    }
}

/// A balances ledger with reserves; accounts 1 to 5 are endowed.
struct MockCurrency {
    free: HashMap<AccountId, Balance>,
    reserved: HashMap<AccountId, Balance>,
}

impl MockCurrency {
    fn endowed() -> Self {
        let free = (1u8..=5).map(|b| (account(b), 1_000_000u128)).collect();
        MockCurrency { free, reserved: HashMap::new() }
    }

    fn free_balance(&self, who: &AccountId) -> Balance {
        *self.free.get(who).unwrap_or(&0)
    }

    fn reserved_balance(&self, who: &AccountId) -> Balance {
        *self.reserved.get(who).unwrap_or(&0)
    }
}

impl ReservableCurrency for MockCurrency {
    fn reserve(&mut self, who: &AccountId, amount: Balance) -> Result<(), Error> {
        let f = self.free_balance(who);
        if f < amount {
            return Err(Error::InsufficientBalance);
        }
        self.free.insert(*who, f - amount);
        let r = self.reserved_balance(who);
        self.reserved.insert(*who, r + amount);
        Ok(())
    }

    fn unreserve(&mut self, who: &AccountId, amount: Balance) {
        let r = self.reserved_balance(who);
        let moved = r.min(amount);
        self.reserved.insert(*who, r - moved);
        let f = self.free_balance(who);
        self.free.insert(*who, f + moved);
    }

    fn slash_reserved(&mut self, who: &AccountId, amount: Balance) {
        let r = self.reserved_balance(who);
        self.reserved.insert(*who, r - r.min(amount));
    }
}

/// A circuit whose public inputs are free: any inputs have a proof.
#[derive(Clone)]
struct Echo {
    xs: Vec<TestFr>,
}

impl ConstraintSynthesizer<TestFr> for Echo {
    fn generate_constraints(self, cs: ConstraintSystemRef<TestFr>) -> Result<(), SynthesisError> {
        let mut vars = Vec::new();
        for x in &self.xs {
            vars.push(FpVar::new_input(cs.clone(), || Ok(*x))?);
        }
        let w = FpVar::new_witness(cs, || Ok(self.xs[0]))?;
        w.enforce_equal(&vars[0])?;
        Ok(())
    }
}

/// Proves statements of a fixed number of public inputs.
struct Prover {
    pk: ProvingKey<Bls12_381>,
    vk_bytes: Vec<u8>,
    rng: StdRng,
}

impl Prover {
    fn new(n: usize, seed: u64) -> Self {
        let mut rng = StdRng::seed_from_u64(seed);
        let (pk, vk) = Groth16::<Bls12_381>::circuit_specific_setup(Echo { xs: vec![TestFr::from(0u64); n] }, &mut rng).unwrap();
        let mut vk_bytes = Vec::new();
        vk.serialize_compressed(&mut vk_bytes).unwrap();
        Prover { pk, vk_bytes, rng }
    }

    fn prove(&mut self, inputs: &[[u8; 32]]) -> Vec<u8> {
        let xs = inputs.iter().map(|b| TestFr::from_le_bytes_mod_order(b)).collect();
        let proof = Groth16::<Bls12_381>::prove(&self.pk, Echo { xs }, &mut self.rng).unwrap();
        let mut out = Vec::new();
        proof.serialize_compressed(&mut out).unwrap();
        out
    }
}

/// A lottery at block 1.
fn new_lottery() -> Pallet {
    let mut l = Pallet::new(params());
    l.set_block_number(1);
    l
}

fn open_with(l: &mut Pallet, cfg: DrawConfig) {
    assert_eq!(l.set_config(Origin::Root, cfg), Ok(()));
    assert_eq!(l.open_draw(Origin::Root), Ok(()));
}

fn run_to_block(l: &mut Pallet, n: BlockNumber) {
    while l.block_number() < n {
        let next = l.block_number() + 1;
        l.on_initialize(next);
    }
}

fn commitment(seed: [u8; 32], salt: [u8; 32]) -> Hash32 {
    let mut b = seed.to_vec();
    b.extend_from_slice(&salt);
    sp_crypto_hashing::blake2_256(&b)
}

/// Register `h` as a ticket of the current draw with a valid proof.
fn register(l: &mut Pallet, tax: &MockTax, prover: &mut Prover, h: Hash32, nullifier: Nullifier) -> Result<(), Error> {
    let root = l.merchant_set_root().unwrap();
    let inputs = lottery_eligibility::public_inputs_from_fields(&h, &root, l.current_draw(), 18, &nullifier);
    let proof = prover.prove(&inputs);
    l.register_ticket(Origin::Signed(account(1)), h, [7u8; 32], proof, nullifier, tax)
}

fn lifecycle_cfg(winners: u32) -> DrawConfig {
    let mut c = base_cfg();
    c.period_blocks = 10;
    c.commit_deadline = 50;
    c.reveal_deadline = 60;
    c.finalize_block = 70;
    c.claim_window = 1_000;
    c.tiers = vec![tier(0, 1_000_000, winners, 1_000_000)];
    c
}

/// Draw 0 with `n` registered tickets, funded, two reveals, sealed, and
/// finalized at block 71.
fn drawn_lottery(n: u8, winners: u32) -> (Pallet, Vec<Hash32>, MockCurrency, MockReserve) {
    let mut l = new_lottery();
    let mut tax = MockTax::default();
    let mut prover = Prover::new(5, 99);
    let mut currency = MockCurrency::endowed();
    let mut reserve = MockReserve { reserve: Some(etwd(80_000_000_000)) };
    open_with(&mut l, lifecycle_cfg(winners));
    assert_eq!(l.set_merchant_set_root(Origin::Root, [7u8; 32]), Ok(()));
    assert_eq!(l.set_eligibility_vk(Origin::Root, prover.vk_bytes.clone()), Ok(()));
    l.note_settled_revenue(etwd(50_000_000_000));

    let entries: Vec<Hash32> = (0u8..n).map(|i| [i + 100; 32]).collect();
    for (i, h) in entries.iter().enumerate() {
        tax.anchor(*h, TaxKind::ValueAdded, 1);
        assert_eq!(register(&mut l, &tax, &mut prover, *h, [i as u8 + 30; 32]), Ok(()));
    }
    assert_eq!(l.draw_entries(0), entries);

    run_to_block(&mut l, 11);
    assert_eq!(l.fund_period(Origin::Root, 0, &mut reserve), Ok(()));
    let (s1, sa1) = ([1u8; 32], [2u8; 32]);
    let (s2, sa2) = ([3u8; 32], [4u8; 32]);
    assert_eq!(l.commit(Origin::Signed(account(2)), 0, commitment(s1, sa1), &mut currency), Ok(()));
    assert_eq!(l.commit(Origin::Signed(account(3)), 0, commitment(s2, sa2), &mut currency), Ok(()));
    assert_eq!(l.reveal_seed(Origin::Signed(account(2)), 0, s1, sa1, &mut currency), Ok(()));
    assert_eq!(l.reveal_seed(Origin::Signed(account(3)), 0, s2, sa2, &mut currency), Ok(()));
    assert_eq!(l.seal_entry_set(Origin::Root, 0), Ok(()));
    assert_eq!(l.finalize_draw(Origin::Signed(account(1)), 0, [0u8; 32], &mut currency), Err(Error::TooEarlyToFinalize));
    run_to_block(&mut l, 71);
    assert_eq!(l.finalize_draw(Origin::Signed(account(1)), 0, [0u8; 32], &mut currency), Ok(()));
    (l, entries, currency, reserve)
}

#[test]
fn set_config_validates_ratio_and_tiers() {
    let mut l = new_lottery();
    let mut c = base_cfg();
    c.tax_ratio_ppm = 30_000;
    assert_eq!(l.set_config(Origin::Root, c), Err(Error::RatioTooHigh));
    let mut c = base_cfg();
    c.tiers = vec![tier(0, 500_000, 1, 1)];
    assert_eq!(l.set_config(Origin::Root, c), Err(Error::TiersNotExhaustive));
    assert_eq!(l.set_config(Origin::Root, base_cfg()), Ok(()));
    assert!(l.active_config().is_some());
}

#[test]
fn set_config_requires_governance() {
    let mut l = new_lottery();
    assert_eq!(l.set_config(Origin::Signed(account(1)), base_cfg()), Err(Error::BadOrigin));
}

#[test]
fn open_draw_opens_a_period() {
    let mut l = new_lottery();
    assert_eq!(l.open_draw(Origin::Root), Err(Error::ConfigNotSet));
    open_with(&mut l, base_cfg());
    assert_eq!(l.current_draw(), 0);
    assert_eq!(l.draw(0).unwrap().state, DrawState::Open);
    assert_eq!(l.draw(0).unwrap().period_end_block, 101);
}

/// What a refused registration must leave as it was.
fn ticket_storage(l: &Pallet, hash: Hash32, nullifier: Nullifier) -> (usize, u32, Vec<Hash32>, bool, bool) {
    (l.events().len(), l.ticket_count(0), l.draw_entries(0), l.is_entry_nullifier_used(&nullifier), l.ticket(&hash).is_some())
}

#[test]
fn register_ticket_gates() {
    let mut l = new_lottery();
    let mut tax = MockTax::default();
    open_with(&mut l, base_cfg());
    let who = Origin::Signed(account(1));
    let owner = [8u8; 32];
    let before = ticket_storage(&l, [1u8; 32], [10u8; 32]);
    assert_eq!(l.register_ticket(who, [1u8; 32], owner, Vec::new(), [10u8; 32], &tax), Err(Error::InvoiceNotAnchored));
    assert_eq!(ticket_storage(&l, [1u8; 32], [10u8; 32]), before);
    tax.anchor([2u8; 32], TaxKind::Income, 1);
    let before = ticket_storage(&l, [2u8; 32], [11u8; 32]);
    assert_eq!(l.register_ticket(who, [2u8; 32], owner, Vec::new(), [11u8; 32], &tax), Err(Error::IneligibleInvoiceKind));
    assert_eq!(ticket_storage(&l, [2u8; 32], [11u8; 32]), before);
    tax.anchor([3u8; 32], TaxKind::ValueAdded, 1);
    let before = ticket_storage(&l, [3u8; 32], [12u8; 32]);
    assert_eq!(l.register_ticket(who, [3u8; 32], owner, Vec::new(), [12u8; 32], &tax), Err(Error::MerchantRootUnset));
    assert_eq!(ticket_storage(&l, [3u8; 32], [12u8; 32]), before);
    assert_eq!(l.set_merchant_set_root(Origin::Root, [7u8; 32]), Ok(()));
    let before = ticket_storage(&l, [3u8; 32], [13u8; 32]);
    assert_eq!(l.register_ticket(who, [3u8; 32], owner, Vec::new(), [13u8; 32], &tax), Err(Error::InvalidVk));
    assert_eq!(ticket_storage(&l, [3u8; 32], [13u8; 32]), before);
}

#[test]
fn register_ticket_rejects_non_canonical_nullifier() {
    let mut l = new_lottery();
    let mut tax = MockTax::default();
    open_with(&mut l, base_cfg());
    tax.anchor([3u8; 32], TaxKind::ValueAdded, 1);
    let before = ticket_storage(&l, [3u8; 32], [0xFFu8; 32]);
    assert_eq!(
        l.register_ticket(Origin::Signed(account(1)), [3u8; 32], [8u8; 32], Vec::new(), [0xFFu8; 32], &tax),
        Err(Error::NonCanonicalNullifier)
    );
    assert_eq!(ticket_storage(&l, [3u8; 32], [0xFFu8; 32]), before);
}

#[test]
fn commit_then_reveal_increments_quorum() {
    let mut l = new_lottery();
    let mut currency = MockCurrency::endowed();
    open_with(&mut l, base_cfg());
    let v = Origin::Signed(account(2));
    let seed = [5u8; 32];
    let salt = [6u8; 32];
    let c = commitment(seed, salt);
    assert_eq!(l.commit(v, 0, c, &mut currency), Ok(()));
    assert_eq!(l.commit(v, 0, c, &mut currency), Err(Error::AlreadyCommitted));
    assert_eq!(l.reveal_seed(v, 0, [0u8; 32], [0u8; 32], &mut currency), Err(Error::BadReveal));
    assert_eq!(l.reveal_seed(v, 0, seed, salt, &mut currency), Ok(()));
    assert_eq!(l.reveal_count(0), 1);
    assert_eq!(l.revealed_xor(0), seed);
}

#[test]
fn reveal_rejected_at_or_after_finalize_block() {
    let mut l = new_lottery();
    let mut currency = MockCurrency::endowed();
    let mut c = base_cfg();
    c.reveal_deadline = 1_000;
    c.finalize_block = 5;
    open_with(&mut l, c);
    l.set_block_number(10);
    assert_eq!(
        l.reveal_seed(Origin::Signed(account(2)), 0, [5u8; 32], [6u8; 32], &mut currency),
        Err(Error::RevealAfterFinalizeBlock)
    );
}

#[test]
fn fund_period_requires_revenue_snapshot() {
    let mut l = new_lottery();
    let mut reserve = MockReserve::default();
    open_with(&mut l, base_cfg());
    assert_eq!(l.fund_period(Origin::Root, 0, &mut reserve), Err(Error::RevenueNotSnapshotted));
}

#[test]
fn note_settled_revenue_accumulates_into_period() {
    let mut l = new_lottery();
    open_with(&mut l, base_cfg());
    l.note_settled_revenue(etwd(1_000));
    l.note_settled_revenue(etwd(500));
    assert_eq!(l.period_tax_revenue(0).unwrap().minor_units, 1_500);
}

#[test]
fn pause_blocks_registration_and_resume_clears() {
    let mut l = new_lottery();
    let mut tax = MockTax::default();
    open_with(&mut l, base_cfg());
    tax.anchor([3u8; 32], TaxKind::ValueAdded, 1);
    assert_eq!(l.emergency_pause(Origin::Root), Ok(()));
    assert!(l.paused());
    assert_eq!(
        l.register_ticket(Origin::Signed(account(1)), [3u8; 32], [8u8; 32], Vec::new(), [14u8; 32], &tax),
        Err(Error::LotteryIsPaused)
    );
    assert_eq!(l.resume(Origin::Signed(account(1))), Err(Error::BadOrigin));
    assert_eq!(l.resume(Origin::Root), Ok(()));
    assert!(!l.paused());
}

#[test]
fn sweep_expired_guards() {
    let mut l = new_lottery();
    let mut reserve = MockReserve::default();
    assert_eq!(l.sweep_expired(Origin::Signed(account(1)), 0, &mut reserve), Err(Error::UnknownDraw));
    open_with(&mut l, base_cfg());
    assert_eq!(l.sweep_expired(Origin::Signed(account(1)), 0, &mut reserve), Err(Error::NotYetExpired));
}

#[test]
fn vk_and_merchant_root_setters() {
    let mut l = new_lottery();
    assert_eq!(l.set_eligibility_vk(Origin::Root, Vec::new()), Err(Error::InvalidVk));
    assert_eq!(l.set_eligibility_vk(Origin::Root, vec![1u8, 2, 3]), Ok(()));
    assert!(l.eligibility_vk().is_some());
    assert_eq!(l.set_merchant_set_root(Origin::Root, [7u8; 32]), Ok(()));
    assert_eq!(l.merchant_set_root(), Some([7u8; 32]));
}

#[test]
fn full_draw_lifecycle_selects_winners() {
    let (mut l, entries, mut currency, _reserve) = drawn_lottery(5, 3);
    assert_eq!(l.prize_pool(0).unwrap().minor_units, 100_000_000);
    assert_eq!(l.entry_count(0), 5);
    assert_eq!(l.draw(0).unwrap().state, DrawState::Drawn);
    let winners = l.winners(0, 0);
    assert_eq!(winners.len(), 3);
    for w in winners.iter() {
        assert!(entries.contains(w));
    }
    let distinct: BTreeSet<_> = winners.iter().collect();
    assert_eq!(distinct.len(), 3);
    assert!(l.entropy(0).is_some());
    assert_eq!(
        l.events().last(),
        Some(&Event::DrawCompleted { draw: 0, entropy: l.entropy(0).unwrap() })
    );
    let mut treasury = MockTreasury::default();
    assert_eq!(
        l.claim_prize(
            Origin::Signed(account(1)),
            0,
            0,
            winners[0],
            account(1),
            Vec::new(),
            [20u8; 32],
            [201u8; 32],
            &mut treasury
        ),
        Err(Error::InvalidVk)
    );
    assert!(treasury.receipts.is_empty());
    // finalizing again is refused: the draw is no longer drawing
    assert_eq!(l.finalize_draw(Origin::Signed(account(1)), 0, [0u8; 32], &mut currency), Err(Error::WrongPhase));
}

#[test]
fn finalize_is_refused_before_the_finalize_block() {
    let mut l = new_lottery();
    let mut currency = MockCurrency::endowed();
    let mut reserve = MockReserve { reserve: Some(etwd(80_000_000_000)) };
    open_with(&mut l, lifecycle_cfg(1));
    run_to_block(&mut l, 11);
    assert_eq!(l.fund_period(Origin::Root, 0, &mut reserve), Ok(()));
    assert_eq!(l.commit(Origin::Signed(account(2)), 0, commitment([1u8; 32], [2u8; 32]), &mut currency), Ok(()));
    assert_eq!(l.reveal_seed(Origin::Signed(account(2)), 0, [1u8; 32], [2u8; 32], &mut currency), Ok(()));
    assert_eq!(l.seal_entry_set(Origin::Root, 0), Ok(()));
    assert_eq!(l.finalize_draw(Origin::Signed(account(1)), 0, [0u8; 32], &mut currency), Err(Error::TooEarlyToFinalize));
    run_to_block(&mut l, 71);
    assert_eq!(l.finalize_draw(Origin::Signed(account(1)), 0, [0u8; 32], &mut currency), Ok(()));
    // no entries: nothing is selected
    assert!(l.winners(0, 0).is_empty());
}

#[test]
fn non_revealer_is_slashed_and_fallback_folded() {
    let mut l = new_lottery();
    let mut tax = MockTax::default();
    let mut prover = Prover::new(5, 5);
    let mut currency = MockCurrency::endowed();
    let mut reserve = MockReserve { reserve: Some(etwd(80_000_000_000)) };
    open_with(&mut l, lifecycle_cfg(1));
    assert_eq!(l.set_merchant_set_root(Origin::Root, [7u8; 32]), Ok(()));
    assert_eq!(l.set_eligibility_vk(Origin::Root, prover.vk_bytes.clone()), Ok(()));
    l.note_settled_revenue(etwd(50_000_000_000));
    tax.anchor([100u8; 32], TaxKind::ValueAdded, 1);
    assert_eq!(register(&mut l, &tax, &mut prover, [100u8; 32], [40u8; 32]), Ok(()));

    run_to_block(&mut l, 11);
    assert_eq!(l.fund_period(Origin::Root, 0, &mut reserve), Ok(()));
    assert_eq!(l.commit(Origin::Signed(account(2)), 0, commitment([1u8; 32], [2u8; 32]), &mut currency), Ok(()));
    assert_eq!(l.commit(Origin::Signed(account(3)), 0, commitment([3u8; 32], [4u8; 32]), &mut currency), Ok(()));
    assert_eq!(currency.reserved_balance(&account(3)), 1_000);
    assert_eq!(l.reveal_seed(Origin::Signed(account(2)), 0, [1u8; 32], [2u8; 32], &mut currency), Ok(()));
    assert_eq!(currency.reserved_balance(&account(2)), 0);

    assert_eq!(l.seal_entry_set(Origin::Root, 0), Ok(()));
    run_to_block(&mut l, 71);
    let xor_before = l.revealed_xor(0);
    assert_eq!(l.finalize_draw(Origin::Signed(account(1)), 0, [0u8; 32], &mut currency), Ok(()));

    assert_eq!(l.total_slashed(), 1_000);
    assert_eq!(currency.reserved_balance(&account(3)), 0);
    assert_eq!(currency.free_balance(&account(3)), 1_000_000 - 1_000);
    assert_ne!(l.revealed_xor(0), xor_before);
    assert_eq!(l.winners(0, 0).len(), 1);
    assert!(l.commit_of(0, &account(3)).unwrap().revealed);
    assert!(l
        .events()
        .iter()
        .any(|e| *e == Event::SeedSlashed { draw: 0, who: account(3), amount: 1_000 }));
}

#[test]
fn fund_period_clamps_and_debits_reserve() {
    let mut l = new_lottery();
    let mut reserve = MockReserve { reserve: Some(etwd(80_000_000_000)) };
    open_with(&mut l, base_cfg());
    l.note_settled_revenue(etwd(50_000_000_000));
    run_to_block(&mut l, 101);
    assert_eq!(l.draw(0).unwrap().state, DrawState::Drawing);
    assert_eq!(l.draw(0).unwrap().revenue_snapshot, Some(etwd(50_000_000_000)));
    assert_eq!(l.fund_period(Origin::Root, 0, &mut reserve), Ok(()));
    assert_eq!(l.prize_pool(0).unwrap().minor_units, 100_000_000);
    assert_eq!(reserve.reserve.unwrap().minor_units, 80_000_000_000 - 100_000_000);
}

#[test]
fn winner_claims_prize_once() {
    let (mut l, _entries, _currency, _reserve) = drawn_lottery(3, 1);
    let winner = l.winners(0, 0)[0];
    let mut own = Prover::new(6, 77);
    assert_eq!(l.set_ownership_vk(Origin::Root, own.vk_bytes.clone()), Ok(()));
    let ticket = l.ticket(&winner).unwrap();
    let nullifier = [21u8; 32];
    let vkc = [22u8; 32];
    let inputs =
        lottery_ownership::public_inputs_from_fields(&winner, &ticket.owner_commitment, 0, &account(9), &nullifier, &vkc);
    let proof = own.prove(&inputs);
    let mut treasury = MockTreasury::default();
    assert_eq!(
        l.claim_prize(Origin::Signed(account(4)), 0, 0, winner, account(9), proof.clone(), nullifier, vkc, &mut treasury),
        Ok(())
    );
    // one winner: the whole tier, capped at 1_000_000
    assert_eq!(treasury.receipts.len(), 1);
    assert_eq!(treasury.receipts[0].0, account(9));
    assert_eq!(treasury.receipts[0].2, etwd(1_000_000));
    assert_eq!(l.prize_pool(0).unwrap().minor_units, 100_000_000 - 1_000_000);
    assert!(l.is_claim_nullifier_used(&nullifier));
    assert_eq!(l.claim_audit(&treasury.receipts[0].1), Some(vkc));
    assert_eq!(
        l.claim_prize(Origin::Signed(account(4)), 0, 0, winner, account(9), proof, nullifier, vkc, &mut treasury),
        Err(Error::AlreadyClaimed)
    );
    assert_eq!(treasury.receipts.len(), 1);
}

#[test]
fn claim_bound_to_its_beneficiary() {
    let (mut l, _entries, _currency, _reserve) = drawn_lottery(2, 1);
    let winner = l.winners(0, 0)[0];
    let mut own = Prover::new(6, 78);
    assert_eq!(l.set_ownership_vk(Origin::Root, own.vk_bytes.clone()), Ok(()));
    let ticket = l.ticket(&winner).unwrap();
    let inputs =
        lottery_ownership::public_inputs_from_fields(&winner, &ticket.owner_commitment, 0, &account(9), &[23u8; 32], &[24u8; 32]);
    let proof = own.prove(&inputs);
    let mut treasury = MockTreasury::default();
    // the proof names account 9; a claim redirected to account 8 is refused
    assert_eq!(
        l.claim_prize(Origin::Signed(account(4)), 0, 0, winner, account(8), proof, [23u8; 32], [24u8; 32], &mut treasury),
        Err(Error::InvalidProof)
    );
    assert!(treasury.receipts.is_empty());
}

#[test]
fn registration_spends_the_nullifier_once() {
    let mut l = new_lottery();
    let mut tax = MockTax::default();
    let mut prover = Prover::new(5, 3);
    open_with(&mut l, base_cfg());
    assert_eq!(l.set_merchant_set_root(Origin::Root, [7u8; 32]), Ok(()));
    assert_eq!(l.set_eligibility_vk(Origin::Root, prover.vk_bytes.clone()), Ok(()));
    tax.anchor([1u8; 32], TaxKind::ValueAdded, 1);
    tax.anchor([2u8; 32], TaxKind::ValueAdded, 1);
    assert_eq!(register(&mut l, &tax, &mut prover, [1u8; 32], [50u8; 32]), Ok(()));
    assert_eq!(l.ticket_count(0), 1);
    assert_eq!(register(&mut l, &tax, &mut prover, [1u8; 32], [51u8; 32]), Err(Error::TicketAlreadyRegistered));
    assert_eq!(register(&mut l, &tax, &mut prover, [2u8; 32], [50u8; 32]), Err(Error::NullifierUsed));
    assert!(l.is_entry_nullifier_used(&[50u8; 32]));
    // a proof for other public inputs is refused
    let root = [7u8; 32];
    let inputs = lottery_eligibility::public_inputs_from_fields(&[9u8; 32], &root, 0, 18, &[52u8; 32]);
    let wrong = prover.prove(&inputs);
    assert_eq!(
        l.register_ticket(Origin::Signed(account(1)), [2u8; 32], [7u8; 32], wrong, [52u8; 32], &tax),
        Err(Error::InvalidProof)
    );
    assert_eq!(l.ticket_count(0), 1);
}

#[test]
fn genesis_builds_the_configuration_and_first_draw() {
    let g = GenesisConfig {
        period_blocks: 50,
        eligible_kinds: vec![3, 9, 1],
        tax_ratio_ppm: 2_000,
        reserve_cap_ppm: 50_000,
        tiers: vec![(0, 600_000, 1, 1_000), (1, 400_000, 5, 100)],
        allow_foreign: false,
        commit_deadline: 10,
        reveal_deadline: 20,
        finalize_block: 30,
        claim_window: 40,
        merchant_set_root: Some([5u8; 32]),
        eligibility_vk: vec![1, 2, 3],
        ownership_vk: Vec::new(),
        open_first_draw: true,
    };
    let l = g.build(params());
    let c = l.active_config().unwrap();
    assert_eq!(c.eligible_kinds, vec![TaxKind::ValueAdded, TaxKind::Wage]);
    assert_eq!(c.tiers, vec![tier(0, 600_000, 1, 1_000), tier(1, 400_000, 5, 100)]);
    assert_eq!(l.merchant_set_root(), Some([5u8; 32]));
    assert_eq!(l.eligibility_vk(), Some(vec![1, 2, 3]));
    assert_eq!(l.ownership_vk(), None);
    assert_eq!(l.draw(0).unwrap().state, DrawState::Open);
    assert_eq!(l.draw(0).unwrap().period_end_block, 50);
    assert_eq!(l.next_draw_id(), 1);
    assert_eq!(tax_kind_from_u8(4), Some(TaxKind::Withholding));
    assert_eq!(tax_kind_from_u8(6), None);
    assert!(MAX_PROBES > 0);
}

#[test]
fn only_value_added_tax_feeds_the_pool() {
    let mut l = new_lottery();
    open_with(&mut l, base_cfg());
    l.note_settled_tax(TaxKind::Income, etwd(9_000));
    assert_eq!(l.period_tax_revenue(0), None);
    l.note_settled_tax(TaxKind::ValueAdded, etwd(1_000));
    l.note_settled_tax(TaxKind::Income, etwd(9_000));
    l.note_settled_tax(TaxKind::ValueAdded, etwd(250));
    assert_eq!(l.period_tax_revenue(0).unwrap().minor_units, 1_250);
}

#[test]
fn register_ticket_answered_follows_the_given_answers() {
    let mut l = new_lottery();
    open_with(&mut l, base_cfg());
    let who = Origin::Signed(account(1));
    let owner = [8u8; 32];
    assert_eq!(
        l.register_ticket_answered(who, [1u8; 32], owner, Vec::new(), [10u8; 32], false, None, None),
        Err(Error::InvoiceNotAnchored)
    );
    assert_eq!(
        l.register_ticket_answered(who, [2u8; 32], owner, Vec::new(), [11u8; 32], true, Some(TaxKind::Income), Some(1)),
        Err(Error::IneligibleInvoiceKind)
    );
    assert_eq!(
        l.register_ticket_answered(who, [3u8; 32], owner, Vec::new(), [12u8; 32], true, Some(TaxKind::ValueAdded), Some(1)),
        Err(Error::MerchantRootUnset)
    );
    assert_eq!(
        l.register_ticket_answered(who, [3u8; 32], owner, Vec::new(), [0xFFu8; 32], true, Some(TaxKind::ValueAdded), Some(1)),
        Err(Error::NonCanonicalNullifier)
    );
}

/// A treasury that refuses every payout with the given error.
struct RefusingTreasury {
    answer: Error,
}

impl TreasuryPayout for RefusingTreasury {
    fn credit_fiat(&mut self, _beneficiary: &AccountId, _receipt_key: Hash32, _amount: FiatAmount) -> Result<(), Error> {
        Err(self.answer)
    }
}

#[test]
fn a_refused_payout_is_the_treasury_answer_and_changes_nothing() {
    let (mut l, _entries, _currency, _reserve) = drawn_lottery(3, 1);
    let winner = l.winners(0, 0)[0];
    let mut own = Prover::new(6, 79);
    assert_eq!(l.set_ownership_vk(Origin::Root, own.vk_bytes.clone()), Ok(()));
    let ticket = l.ticket(&winner).unwrap();
    let nullifier = [31u8; 32];
    let vkc = [32u8; 32];
    let inputs =
        lottery_ownership::public_inputs_from_fields(&winner, &ticket.owner_commitment, 0, &account(9), &nullifier, &vkc);
    let proof = own.prove(&inputs);
    let events = l.events().len();
    let mut refusing = RefusingTreasury { answer: Error::CurrencyMismatch };
    assert_eq!(
        l.claim_prize(Origin::Signed(account(4)), 0, 0, winner, account(9), proof.clone(), nullifier, vkc, &mut refusing),
        Err(Error::CurrencyMismatch)
    );
    assert_eq!(l.prize_pool(0).unwrap().minor_units, 100_000_000);
    assert!(!l.is_claim_nullifier_used(&nullifier));
    assert_eq!(l.events().len(), events);
    // the same claim is paid once a treasury accepts it
    let mut treasury = MockTreasury::default();
    assert_eq!(
        l.claim_prize(Origin::Signed(account(4)), 0, 0, winner, account(9), proof, nullifier, vkc, &mut treasury),
        Ok(())
    );
    assert_eq!(treasury.receipts.len(), 1);
}
