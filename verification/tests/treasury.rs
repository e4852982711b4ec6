use std::collections::HashMap;

use ferrum::origin::{Origin, OriginRule};
use ferrum::primitives::{AccountId, Balance, FiatAmount};
use ferrum::tax::TreasurySettle;
use ferrum::treasury::{
    all_pools, Currency, Error, Event, Pallet, POOL_ECOSYSTEM, POOL_PROTOCOL_DEV, POOL_STAKING_SECURITY, POOL_SUBSIDY,
};

fn account(n: u8) -> AccountId {
    [n; 32]
}

/// A balances ledger with an existential deposit of one.
#[derive(Default)]
struct Balances {
    free: HashMap<AccountId, Balance>,
    issuance: Balance,
}

impl Balances {
    fn free_balance(&self, who: &AccountId) -> Balance {
        *self.free.get(who).unwrap_or(&0)
    }
}

impl Currency for Balances {
    fn issue(&mut self, amount: Balance) {
        self.issuance = self.issuance.saturating_add(amount);
    }

    fn withdraw(&mut self, who: &AccountId, amount: Balance) -> Result<(), ()> {
        let bal = self.free_balance(who);
        if bal < amount {
            return Err(());
        }
        self.free.insert(*who, bal - amount);
        Ok(())
    }

    fn burn(&mut self, amount: Balance) {
        self.issuance = self.issuance.saturating_sub(amount);
    }

    fn deposit_creating(&mut self, who: &AccountId, amount: Balance) {
        if amount == 0 && !self.free.contains_key(who) {
            return;
        }
        let bal = self.free_balance(who);
        self.free.insert(*who, bal + amount);
    }
}

fn new_treasury() -> Pallet {
    Pallet::new(OriginRule::Root)
}

#[test]
fn mint_into_pool_by_governance_works() {
    let mut t = new_treasury();
    let mut b = Balances::default();
    assert_eq!(t.mint(Origin::Root, POOL_STAKING_SECURITY, 1_000, &mut b), Ok(()));
    assert_eq!(t.pool_balance(POOL_STAKING_SECURITY), 1_000);
    assert_eq!(
        t.events().last(),
        Some(&Event::Minted { pool: POOL_STAKING_SECURITY, amount: 1_000, new_balance: 1_000 })
    );
}

#[test]
fn mint_rejects_unknown_pool() {
    let mut t = new_treasury();
    let mut b = Balances::default();
    assert_eq!(t.mint(Origin::Root, 99, 1_000, &mut b), Err(Error::UnknownPool));
}

#[test]
fn mint_rejects_non_governance_origin() {
    let mut t = new_treasury();
    let mut b = Balances::default();
    assert_eq!(t.mint(Origin::Signed(account(1)), POOL_STAKING_SECURITY, 1_000, &mut b), Err(Error::BadOrigin));
}

#[test]
fn mint_accumulates_across_pools() {
    let mut t = new_treasury();
    let mut b = Balances::default();
    assert_eq!(t.mint(Origin::Root, POOL_PROTOCOL_DEV, 300, &mut b), Ok(()));
    assert_eq!(t.mint(Origin::Root, POOL_PROTOCOL_DEV, 200, &mut b), Ok(()));
    assert_eq!(t.pool_balance(POOL_PROTOCOL_DEV), 500);
}

#[test]
fn burn_reduces_balance_and_tallies_total_burned() {
    let mut t = new_treasury();
    let mut b = Balances::default();
    b.deposit_creating(&account(1), 10_000);
    assert_eq!(t.burn(Origin::Signed(account(1)), 1_000, &mut b), Ok(()));
    assert_eq!(b.free_balance(&account(1)), 9_000);
    assert_eq!(t.total_burned(), 1_000);
    assert_eq!(t.events().last(), Some(&Event::Burned { who: account(1), amount: 1_000, total_burned: 1_000 }));
}

#[test]
fn burn_accumulates_total_burned() {
    let mut t = new_treasury();
    let mut b = Balances::default();
    b.deposit_creating(&account(1), 10_000);
    assert_eq!(t.burn(Origin::Signed(account(1)), 500, &mut b), Ok(()));
    assert_eq!(t.burn(Origin::Signed(account(1)), 500, &mut b), Ok(()));
    assert_eq!(t.total_burned(), 1_000);
}

#[test]
fn burn_fails_with_insufficient_balance() {
    let mut t = new_treasury();
    let mut b = Balances::default();
    b.deposit_creating(&account(1), 100);
    assert_eq!(t.burn(Origin::Signed(account(1)), 1_000, &mut b), Err(Error::InsufficientBalance));
    assert_eq!(t.total_burned(), 0);
}

#[test]
fn subsidize_pays_from_subsidy_pool() {
    let mut t = new_treasury();
    let mut b = Balances::default();
    assert_eq!(t.mint(Origin::Root, POOL_SUBSIDY, 1_000, &mut b), Ok(()));
    assert_eq!(t.subsidize(Origin::Root, account(42), 400, &mut b), Ok(()));
    assert_eq!(t.pool_balance(POOL_SUBSIDY), 600);
    assert_eq!(b.free_balance(&account(42)), 400);
    assert_eq!(t.events().last(), Some(&Event::Subsidized { pool: POOL_SUBSIDY, who: account(42), amount: 400 }));
}

#[test]
fn subsidize_fails_when_pool_underfunded() {
    let mut t = new_treasury();
    let mut b = Balances::default();
    assert_eq!(t.mint(Origin::Root, POOL_SUBSIDY, 100, &mut b), Ok(()));
    assert_eq!(t.subsidize(Origin::Root, account(42), 400, &mut b), Err(Error::InsufficientPoolBalance));
    assert_eq!(t.pool_balance(POOL_SUBSIDY), 100);
}

#[test]
fn subsidize_rejects_non_governance_origin() {
    let mut t = new_treasury();
    let mut b = Balances::default();
    assert_eq!(t.subsidize(Origin::Signed(account(1)), account(42), 100, &mut b), Err(Error::BadOrigin));
}

#[test]
fn record_settlement_anchors_receipt() {
    let mut t = new_treasury();
    let receipt = [1u8; 32];
    let amount = FiatAmount { currency: *b"TWD", minor_units: 5_000 };
    assert_eq!(t.record_settlement(Origin::Signed(account(7)), receipt, amount), Ok(()));
    assert_eq!(t.receipt(&receipt), Some(amount));
    assert_eq!(t.events().last(), Some(&Event::SettlementRecorded { payer: account(7), receipt, amount }));
}

#[test]
fn record_settlement_rejects_replay() {
    let mut t = new_treasury();
    let receipt = [2u8; 32];
    let amount = FiatAmount { currency: *b"TWD", minor_units: 1_000 };
    assert_eq!(t.record_settlement(Origin::Signed(account(7)), receipt, amount), Ok(()));
    assert_eq!(t.record_settlement(Origin::Signed(account(7)), receipt, amount), Err(Error::ReceiptAlreadyRecorded));
}

#[test]
fn treasury_settle_trait_records_receipt() {
    let mut t = new_treasury();
    let receipt = [3u8; 32];
    let amount = FiatAmount { currency: *b"TWD", minor_units: 2_500 };
    assert_eq!(t.settle_fiat(&account(9), receipt, amount), Ok(()));
    assert_eq!(t.receipt(&receipt), Some(amount));
}

#[test]
fn pool_ids_follow_the_allocation_chart() {
    assert_eq!(all_pools(), [0, 1, 2, 3, 4]);
    assert_eq!(POOL_ECOSYSTEM, 4);
}

#[test]
fn mint_saturates_the_pool() {
    let mut t = new_treasury();
    let mut b = Balances::default();
    assert_eq!(t.mint(Origin::Root, POOL_ECOSYSTEM, u128::MAX - 5, &mut b), Ok(()));
    assert_eq!(t.mint(Origin::Root, POOL_ECOSYSTEM, 10, &mut b), Ok(()));
    assert_eq!(t.pool_balance(POOL_ECOSYSTEM), u128::MAX);
}
