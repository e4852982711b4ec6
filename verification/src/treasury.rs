//! The treasury of the network token FER: the five genesis allocation pools,
//! governed issuance into them, the fee burn, subsidy payouts for fee-free
//! public services, and the receipts of tax settlements paid in eTWD.
use vstd::prelude::*;
use crate::origin::{admits, ensure_origin, ensure_signed, signer_of, Origin, OriginRule};
use crate::primitives::{AccountId, Balance, FiatAmount, Hash32};
use crate::table::Table;

pub use crate::tax::TreasurySettle;

verus! {

/// Pool 0: validator staking and security (30%).
pub const POOL_STAKING_SECURITY: u8 = 0;

/// Pool 1: sovereign treasury reserve (25%).
pub const POOL_SOVEREIGN_RESERVE: u8 = 1;

/// Pool 2: public-service subsidy fund (20%).
pub const POOL_SUBSIDY: u8 = 2;

/// Pool 3: protocol development and maintenance (15%).
pub const POOL_PROTOCOL_DEV: u8 = 3;

/// Pool 4: ecosystem and integration grants (10%).
pub const POOL_ECOSYSTEM: u8 = 4;

/// Whether `pool` names one of the five allocation pools.
pub open spec fn is_pool(pool: u8) -> bool {
    pool == POOL_STAKING_SECURITY || pool == POOL_SOVEREIGN_RESERVE || pool == POOL_SUBSIDY
        || pool == POOL_PROTOCOL_DEV || pool == POOL_ECOSYSTEM
}

/// The valid pool ids, in the order of the allocation chart.
pub fn all_pools() -> (r: [u8; 5])
    ensures
        r@ == seq![POOL_STAKING_SECURITY, POOL_SOVEREIGN_RESERVE, POOL_SUBSIDY, POOL_PROTOCOL_DEV, POOL_ECOSYSTEM],
{
    let r = [POOL_STAKING_SECURITY, POOL_SOVEREIGN_RESERVE, POOL_SUBSIDY, POOL_PROTOCOL_DEV, POOL_ECOSYSTEM];
    assert(r@ =~= seq![POOL_STAKING_SECURITY, POOL_SOVEREIGN_RESERVE, POOL_SUBSIDY, POOL_PROTOCOL_DEV, POOL_ECOSYSTEM]);
    r
}

/// Whether `pool` is among the valid pool ids.
pub fn is_known_pool(pool: u8) -> (r: bool)
    ensures
        r == is_pool(pool),
{
    let pools = all_pools();
    let mut i: usize = 0;
    while i < 5
        invariant
            i <= 5,
            pools@ == seq![POOL_STAKING_SECURITY, POOL_SOVEREIGN_RESERVE, POOL_SUBSIDY, POOL_PROTOCOL_DEV, POOL_ECOSYSTEM],
            forall|j: int| 0 <= j < i ==> pools@[j] != pool,
        decreases 5 - i,
    {
        if pools[i] == pool {
            return true;
        }
        i = i + 1;
    }
    false
}

/// An operation on the FER currency.
#[derive(Clone, Copy, Debug, PartialEq, Eq)]
pub enum CurrencyOp {
    Issue(Balance),
    Withdraw(AccountId, Balance),
    Burn(Balance),
    Deposit(AccountId, Balance),
}

/// The FER currency the treasury issues, burns and pays out in; the runtime
/// supplies it (a balances ledger). An implementation records each operation
/// it performs, and no withdrawal it refuses.
/// Its records are spec functions that a verified implementation defines;
/// left undefined, they are unspecified and nothing is known of them.
pub trait Currency {
    /// The operations performed so far.
    closed spec fn ops(&self) -> Seq<CurrencyOp> {
        arbitrary()
    }

    /// Raise the issuance by `amount`.
    fn issue(&mut self, amount: Balance)
        ensures
            final(self).ops() == old(self).ops().push(CurrencyOp::Issue(amount)),
    ;

    /// Take `amount` from `who`'s free balance; refused when it is short.
    /// Whether `who`'s free balance covers a withdrawal of `amount` now.
    closed spec fn can_withdraw(&self, who: AccountId, amount: Balance) -> bool {
        arbitrary()
    }

    fn withdraw(&mut self, who: &AccountId, amount: Balance) -> (r: Result<(), ()>)
        ensures
            r is Ok <==> old(self).can_withdraw(*who, amount),
            r is Ok ==> final(self).ops() == old(self).ops().push(CurrencyOp::Withdraw(*who, amount)),
            r is Err ==> final(self).ops() == old(self).ops(),
    ;

    /// Lower the issuance by `amount`.
    fn burn(&mut self, amount: Balance)
        ensures
            final(self).ops() == old(self).ops().push(CurrencyOp::Burn(amount)),
    ;

    /// Credit `amount` to `who`, creating the account if needed.
    fn deposit_creating(&mut self, who: &AccountId, amount: Balance)
        ensures
            final(self).ops() == old(self).ops().push(CurrencyOp::Deposit(*who, amount)),
    ;
}

/// Events of the treasury.
#[derive(Clone, Copy, Debug, PartialEq, Eq)]
pub enum Event {
    Minted { pool: u8, amount: Balance, new_balance: Balance },
    Burned { who: AccountId, amount: Balance, total_burned: Balance },
    Subsidized { pool: u8, who: AccountId, amount: Balance },
    SettlementRecorded { payer: AccountId, receipt: Hash32, amount: FiatAmount },
}

/// Errors of the treasury.
#[derive(Clone, Copy, Debug, PartialEq, Eq)]
pub enum Error {
    /// The origin is not allowed to make the call.
    BadOrigin,
    UnknownPool,
    InsufficientPoolBalance,
    InsufficientBalance,
    ReceiptAlreadyRecorded,
}

/// The treasury's state.
pub struct Pallet {
    governance: OriginRule,
    pools: Table<u8, Balance>,
    receipts: Table<Hash32, FiatAmount>,
    total_burned: Balance,
    events: Vec<Event>,
}

/// `x + y` saturating at `u128::MAX`.
pub open spec fn sat_add_u128(x: int, y: int) -> u128 {
    (if x + y > u128::MAX { u128::MAX as int } else { x + y }) as u128
}

impl Pallet {
    /// Who may mint and pay subsidies.
    pub closed spec fn governance(self) -> OriginRule {
        self.governance
    }

    /// The stored pool balances.
    pub closed spec fn pool_map(self) -> Map<u8, Balance> {
        self.pools@
    }

    /// The balance of a pool (zero when never touched).
    pub open spec fn pool_of(self, pool: u8) -> Balance {
        if self.pool_map().contains_key(pool) {
            self.pool_map()[pool]
        } else {
            0
        }
    }

    /// The recorded settlement receipts.
    pub closed spec fn receipt_map(self) -> Map<Hash32, FiatAmount> {
        self.receipts@
    }

    /// The FER burned so far.
    pub closed spec fn burned(self) -> Balance {
        self.total_burned
    }

    /// The events emitted so far.
    pub closed spec fn log(self) -> Seq<Event> {
        self.events@
    }

    /// An empty treasury governed by `governance`.
    pub fn new(governance: OriginRule) -> (r: Pallet)
        ensures
            r.governance() == governance,
            r.pool_map() == Map::<u8, Balance>::empty(),
            r.receipt_map() == Map::<Hash32, FiatAmount>::empty(),
            r.burned() == 0,
            r.log() == Seq::<Event>::empty(),
    {
        Pallet { governance, pools: Table::new(), receipts: Table::new(), total_burned: 0, events: Vec::new() }
    }

    /// Mint `amount` of FER into an allocation pool (governance origin); the
    /// pool balance saturates.
    pub fn mint<C: Currency>(&mut self, origin: Origin, pool: u8, amount: Balance, currency: &mut C) -> (r: Result<(), Error>)
        ensures
            r is Err ==> *final(self) == *old(self) && *final(currency) == *old(currency),
            (r == Err::<(), Error>(Error::BadOrigin)) == !admits(old(self).governance(), origin),
            admits(old(self).governance(), origin) ==> (r == Err::<(), Error>(Error::UnknownPool)) == !is_pool(pool),
            r is Ok ==> {
                let nb = sat_add_u128(old(self).pool_of(pool) as int, amount as int);
                &&& final(self).pool_map() == old(self).pool_map().insert(pool, nb)
                &&& final(self).log() == old(self).log().push(Event::Minted { pool, amount, new_balance: nb })
                &&& final(self).receipt_map() == old(self).receipt_map()
                &&& final(self).burned() == old(self).burned()
                &&& final(self).governance() == old(self).governance()
                &&& final(currency).ops() == old(currency).ops().push(CurrencyOp::Issue(amount))
            },
            r is Err ==> r == Err::<(), Error>(Error::BadOrigin) || r == Err::<(), Error>(Error::UnknownPool),
    {
        if !ensure_origin(&self.governance, &origin) {
            return Err(Error::BadOrigin);
        }
        if !is_known_pool(pool) {
            return Err(Error::UnknownPool);
        }
        currency.issue(amount);
        let bal: Balance = match self.pools.get(&pool) {
            Some(b) => *b,
            None => 0,
        };
        let new_balance = bal.saturating_add(amount);
        self.pools.insert(pool, new_balance);
        self.events.push(Event::Minted { pool, amount, new_balance });
        Ok(())
    }

    /// Burn `amount` of FER from the caller's free balance (signed origin);
    /// refused when the currency cannot withdraw it. The burned total
    /// saturates.
    pub fn burn<C: Currency>(&mut self, origin: Origin, amount: Balance, currency: &mut C) -> (r: Result<(), Error>)
        ensures
            r is Err ==> *final(self) == *old(self),
            (r == Err::<(), Error>(Error::BadOrigin)) == !(origin is Signed),
            !(origin is Signed) ==> *final(currency) == *old(currency),
            origin is Signed ==> (r is Ok || r == Err::<(), Error>(Error::InsufficientBalance)),
            signer_of(origin) matches Some(who) ==> (r is Ok <==> old(currency).can_withdraw(who, amount)),
            signer_of(origin) matches Some(who) ==> r is Ok ==> {
                let total = sat_add_u128(old(self).burned() as int, amount as int);
                &&& final(self).burned() == total
                &&& final(self).log() == old(self).log().push(Event::Burned { who, amount, total_burned: total })
                &&& final(self).pool_map() == old(self).pool_map()
                &&& final(self).receipt_map() == old(self).receipt_map()
                &&& final(self).governance() == old(self).governance()
                &&& final(currency).ops() == old(currency).ops().push(CurrencyOp::Withdraw(who, amount)).push(
                    CurrencyOp::Burn(amount),
                )
            },
            r == Err::<(), Error>(Error::InsufficientBalance) ==> final(currency).ops() == old(currency).ops(),
    {
        let who = match ensure_signed(&origin) {
            Some(a) => a,
            None => return Err(Error::BadOrigin),
        };
        match currency.withdraw(&who, amount) {
            Ok(()) => {},
            Err(_) => return Err(Error::InsufficientBalance),
        }
        currency.burn(amount);
        let total = self.total_burned.saturating_add(amount);
        self.total_burned = total;
        self.events.push(Event::Burned { who, amount, total_burned: total });
        Ok(())
    }

    /// Pay `amount` of FER from the subsidy pool to `who` (governance
    /// origin), covering a fee-free service; refused when the pool is short.
    pub fn subsidize<C: Currency>(&mut self, origin: Origin, who: AccountId, amount: Balance, currency: &mut C) -> (r: Result<(), Error>)
        ensures
            r is Err ==> *final(self) == *old(self) && *final(currency) == *old(currency),
            (r == Err::<(), Error>(Error::BadOrigin)) == !admits(old(self).governance(), origin),
            admits(old(self).governance(), origin) ==> (r == Err::<(), Error>(Error::InsufficientPoolBalance)) == (
            old(self).pool_of(POOL_SUBSIDY) < amount),
            r is Ok ==> {
                &&& final(self).pool_map() == old(self).pool_map().insert(
                    POOL_SUBSIDY,
                    (old(self).pool_of(POOL_SUBSIDY) - amount) as Balance,
                )
                &&& final(self).log() == old(self).log().push(Event::Subsidized { pool: POOL_SUBSIDY, who, amount })
                &&& final(self).receipt_map() == old(self).receipt_map()
                &&& final(self).burned() == old(self).burned()
                &&& final(self).governance() == old(self).governance()
                &&& final(currency).ops() == old(currency).ops().push(CurrencyOp::Deposit(who, amount))
            },
            r is Err ==> r == Err::<(), Error>(Error::BadOrigin) || r == Err::<(), Error>(Error::InsufficientPoolBalance),
    {
        if !ensure_origin(&self.governance, &origin) {
            return Err(Error::BadOrigin);
        }
        let bal: Balance = match self.pools.get(&POOL_SUBSIDY) {
            Some(b) => *b,
            None => 0,
        };
        if bal < amount {
            return Err(Error::InsufficientPoolBalance);
        }
        self.pools.insert(POOL_SUBSIDY, bal - amount);
        currency.deposit_creating(&who, amount);
        self.events.push(Event::Subsidized { pool: POOL_SUBSIDY, who, amount });
        Ok(())
    }

    /// Record an eTWD tax-settlement receipt (signed origin, the payer);
    /// a receipt is recorded once.
    pub fn record_settlement(&mut self, origin: Origin, receipt: Hash32, amount: FiatAmount) -> (r: Result<(), Error>)
        ensures
            r is Err ==> *final(self) == *old(self),
            (r == Err::<(), Error>(Error::BadOrigin)) == !(origin is Signed),
            signer_of(origin) matches Some(payer) ==> settlement_outcome(*old(self), *final(self), payer, receipt, amount, r),
    {
        let payer = match ensure_signed(&origin) {
            Some(a) => a,
            None => return Err(Error::BadOrigin),
        };
        self.do_record_settlement(&payer, receipt, amount)
    }

    fn do_record_settlement(&mut self, payer: &AccountId, receipt: Hash32, amount: FiatAmount) -> (r: Result<(), Error>)
        ensures
            r is Err ==> *final(self) == *old(self),
            settlement_outcome(*old(self), *final(self), *payer, receipt, amount, r),
    {
        if self.receipts.contains_key(&receipt) {
            return Err(Error::ReceiptAlreadyRecorded);
        }
        self.receipts.insert(receipt, amount);
        self.events.push(Event::SettlementRecorded { payer: *payer, receipt, amount });
        Ok(())
    }

    /// The balance of a pool.
    pub fn pool_balance(&self, pool: u8) -> (r: Balance)
        ensures
            r == self.pool_of(pool),
    {
        match self.pools.get(&pool) {
            Some(b) => *b,
            None => 0,
        }
    }

    /// The amount recorded under a settlement receipt.
    pub fn receipt(&self, receipt: &Hash32) -> (r: Option<FiatAmount>)
        ensures
            match r {
                Some(a) => self.receipt_map().contains_key(*receipt) && a == self.receipt_map()[*receipt],
                None => !self.receipt_map().contains_key(*receipt),
            },
    {
        match self.receipts.get(receipt) {
            Some(a) => Some(*a),
            None => None,
        }
    }

    /// The FER burned so far.
    pub fn total_burned(&self) -> (r: Balance)
        ensures
            r == self.burned(),
    {
        self.total_burned
    }

    /// The events emitted so far.
    pub fn events(&self) -> (r: &Vec<Event>)
        ensures
            r@ == self.log(),
    {
        &self.events
    }
}

/// The settlements recorded in an event log, in order.
pub open spec fn settled_of(log: Seq<Event>) -> Seq<(AccountId, Hash32, FiatAmount)>
    decreases log.len(),
{
    if log.len() == 0 {
        Seq::empty()
    } else {
        let rest = settled_of(log.drop_last());
        match log.last() {
            Event::SettlementRecorded { payer, receipt, amount } => rest.push((payer, receipt, amount)),
            _ => rest,
        }
    }
}

/// Recording a settlement receipt: refused for a receipt already recorded,
/// else the receipt and its amount are recorded and announced.
pub open spec fn settlement_outcome(
    old: Pallet,
    new: Pallet,
    payer: AccountId,
    receipt: Hash32,
    amount: FiatAmount,
    r: Result<(), Error>,
) -> bool {
    &&& (r == Err::<(), Error>(Error::ReceiptAlreadyRecorded)) == old.receipt_map().contains_key(receipt)
    &&& r is Err ==> r == Err::<(), Error>(Error::ReceiptAlreadyRecorded)
    &&& r is Ok ==> {
        &&& new.receipt_map() == old.receipt_map().insert(receipt, amount)
        &&& new.log() == old.log().push(Event::SettlementRecorded { payer, receipt, amount })
        &&& new.pool_map() == old.pool_map()
        &&& new.burned() == old.burned()
        &&& new.governance() == old.governance()
    }
}

impl TreasurySettle for Pallet {
    /// The settlements recorded in the treasury's events.
    open spec fn settlements(&self) -> Seq<(AccountId, Hash32, FiatAmount)> {
        settled_of(self.log())
    }

    /// The treasury accepts a settlement whose receipt it has not recorded.
    open spec fn accepts_settlement(&self, payer: AccountId, receipt: Hash32, amount: FiatAmount) -> bool {
        !self.receipt_map().contains_key(receipt)
    }

    /// A refused settlement is a receipt recorded before.
    open spec fn settlement_refusal(&self, payer: AccountId, receipt: Hash32, amount: FiatAmount) -> Error {
        Error::ReceiptAlreadyRecorded
    }

    /// Record the receipt of a tax settlement paid in eTWD by `payer`.
    fn settle_fiat(&mut self, payer: &AccountId, receipt: Hash32, amount: FiatAmount) -> (r: Result<(), Error>)
        ensures
            r is Err ==> *final(self) == *old(self),
            settlement_outcome(*old(self), *final(self), *payer, receipt, amount, r),
    {
        let r = self.do_record_settlement(payer, receipt, amount);
        proof {
            if r is Ok {
                assert(self.log().drop_last() =~= old(self).log());
            }
        }
        r
    }
}

} // verus!
