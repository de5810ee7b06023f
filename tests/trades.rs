use std::collections::HashMap;

use bazaar::escrow::PALLET_ID;
use bazaar::pallet::{Module, Trait, ESCROW_HOLD};
use bazaar::types::{AccountId, Balance, Error, Event, Transfer};

const A: AccountId = 1;
const B: AccountId = 2;
const C: AccountId = 3;

struct Ledger {
    balances: HashMap<AccountId, Balance>,
}

impl Ledger {
    fn new(funds: &[(AccountId, Balance)]) -> Ledger {
        Ledger { balances: funds.iter().cloned().collect() }
    }

    fn balance(&self, who: AccountId) -> Balance {
        *self.balances.get(&who).unwrap_or(&0)
    }
}

impl Trait for Ledger {
    fn balance_of(&self, who: AccountId) -> Balance {
        self.balance(who)
    }

    fn transfer(&mut self, from: AccountId, to: AccountId, amount: Balance) -> Result<(), ()> {
        let have = self.balance(from);
        if have < amount {
            return Err(());
        }
        self.balances.insert(from, have - amount);
        let got = self.balance(to);
        self.balances.insert(to, got + amount);
        Ok(())
    }

    fn free_balance(&self, who: AccountId) -> Balance {
        self.balance(who)
    }
}

fn register(m: &mut Module, who: AccountId, now: u64) -> Result<u128, Error> {
    m.register_trader(who, b"name".to_vec(), b"headline".to_vec(), 44, b"bank".to_vec(), 10, 1000, 9, 500, now)
}

/// Trader A registered, trade 0 opened by B at block 1, A holding 100.
fn opened() -> (Module, Ledger) {
    let mut m = Module::new();
    assert_eq!(register(&mut m, A, 0), Ok(0));
    let (id, _) = m.initiate_buy(B, 100, 50, 0, 1);
    assert_eq!(id, 0);
    (m, Ledger::new(&[(A, 100)]))
}

/// As `opened`, with trade 0 escrowed.
fn escrowed() -> (Module, Ledger) {
    let (mut m, mut l) = opened();
    assert_eq!(m.escrow_coin(&mut l, A, 0), Ok(()));
    (m, l)
}

#[test]
fn escrow_account_is_derived_from_module_id() {
    let expected = u64::from_le_bytes(*b"modl8BAZ");
    assert_eq!(Module::account_id(), expected);
    assert_eq!(&PALLET_ID, b"8BAZAAR8");
    assert_ne!(Module::account_id(), u64::from_le_bytes(PALLET_ID));
}

#[test]
fn scenario_register_and_initiate() {
    let mut m = Module::new();
    assert_eq!(register(&mut m, A, 0), Ok(0));
    let (id, ev) = m.initiate_buy(B, 100, 50, 0, 1);
    assert_eq!(id, 0);
    assert_eq!(ev, Event::InitiatedBuy(B, 0, 50));
    let t = m.bazaar_trade(0).unwrap();
    assert!(t.initiated);
    assert!(!t.escrowed);
    assert!(!t.received);
    assert_eq!((t.price, t.amount, t.buyer, t.seller, t.created), (100, 50, B, 0, 1));
    assert_eq!(m.bazaar_trade_count(), 1);
}

#[test]
fn scenario_escrow_moves_funds() {
    let (m, l) = escrowed();
    assert_eq!(l.balance(A), 50);
    assert_eq!(l.balance(Module::account_id()), 50);
    assert_eq!(Module::balanace(&l), 50);
    assert!(m.bazaar_trade(0).unwrap().escrowed);
}

#[test]
fn scenario_confirm_pays_buyer_once() {
    let (mut m, mut l) = escrowed();
    assert_eq!(m.confirm_received(&mut l, B, 0), Ok(()));
    assert_eq!(l.balance(B), 50);
    assert_eq!(l.balance(Module::account_id()), 0);
    assert!(m.bazaar_trade(0).unwrap().received);
    assert_eq!(m.confirm_received(&mut l, B, 0), Err(Error::TradeAlreadyCompleted));
    assert_eq!(l.balance(B), 50);
}

#[test]
fn scenario_escrow_twice_fails() {
    let (mut m, mut l) = escrowed();
    assert_eq!(m.escrow_coin(&mut l, A, 0), Err(Error::TradeAlreadyEscrowed));
    assert_eq!(l.balance(A), 50);
    assert_eq!(Module::balanace(&l), 50);
}

#[test]
fn scenario_cancel_after_time_lock() {
    let (mut m, mut l) = escrowed();
    assert_eq!(m.cancel_escrow(&mut l, A, 0, 2), Err(Error::TradeLessThanOneDay));
    assert_eq!(Module::balanace(&l), 50);
    assert_eq!(l.balance(A), 50);
    assert_eq!(m.cancel_escrow(&mut l, A, 0, 1 + ESCROW_HOLD), Err(Error::TradeLessThanOneDay));
    assert_eq!(m.cancel_escrow(&mut l, A, 0, 1 + 14401), Ok(()));
    assert_eq!(l.balance(A), 100);
    assert_eq!(l.balance(Module::account_id()), 0);
    assert!(m.bazaar_trade(0).unwrap().cancelled);
    assert_eq!(m.cancel_escrow(&mut l, A, 0, 1 + 20000), Err(Error::TradeCancelled));
    assert_eq!(m.confirm_received(&mut l, B, 0), Err(Error::TradeCancelled));
    assert_eq!(l.balance(A), 100);
    assert_eq!(l.balance(B), 0);
}

#[test]
fn scenario_update_limit_unregistered() {
    let (mut m, _) = opened();
    assert_eq!(m.update_trader_limit(C, 1, 2, 3, 4), Err(Error::NotAuthorisedAsTrader));
    assert!(m.bazaar_trader_info(C).is_none());
    assert_eq!(m.bazaar_trader_count(), 1);
    let p = m.bazaar_trader_info(A).unwrap();
    assert_eq!((p.ask_price, p.ask_limit, p.bid_price, p.bid_limit), (10, 1000, 9, 500));
}

#[test]
fn register_twice_is_refused() {
    let mut m = Module::new();
    assert_eq!(register(&mut m, A, 0), Ok(0));
    assert_eq!(register(&mut m, A, 3), Err(Error::AlreadyTrader));
    assert_eq!(m.bazaar_trader_count(), 1);
    assert_eq!(m.bazaar_trader_info(A).unwrap().created, 0);
}

#[test]
fn indices_increase() {
    let mut m = Module::new();
    assert_eq!(register(&mut m, A, 0), Ok(0));
    assert_eq!(register(&mut m, B, 0), Ok(1));
    assert_eq!(register(&mut m, C, 0), Ok(2));
    assert_eq!(m.bazaar_traders(B), Some(1));
    assert_eq!(m.bazaar_traders(9), None);
    assert_eq!(m.initiate_buy(C, 1, 1, 0, 0).0, 0);
    assert_eq!(m.initiate_buy(C, 1, 1, 1, 0).0, 1);
    assert_eq!(m.initiate_buy(C, 1, 1, 0, 0).0, 2);
    assert_eq!(m.bazaar_trade_count(), 3);
}

#[test]
fn update_trader_keeps_other_fields() {
    let (mut m, _) = opened();
    assert_eq!(m.update_trader(A, b"new".to_vec(), b"cash".to_vec()), Ok(()));
    let p = m.bazaar_trader_info(A).unwrap();
    assert_eq!(p.headline, b"new".to_vec());
    assert_eq!(p.method, b"cash".to_vec());
    assert_eq!(p.name, b"name".to_vec());
    assert_eq!((p.country, p.ask_price, p.account), (44, 10, A));
    assert_eq!(m.update_trader(C, Vec::new(), Vec::new()), Err(Error::NotAuthorisedAsTrader));
}

#[test]
fn update_limit_keeps_profile() {
    let (mut m, _) = opened();
    assert_eq!(m.update_trader_limit(A, 1, 2, 3, 4), Ok(()));
    let p = m.bazaar_trader_info(A).unwrap();
    assert_eq!((p.ask_price, p.ask_limit, p.bid_price, p.bid_limit), (1, 2, 3, 4));
    assert_eq!(p.headline, b"headline".to_vec());
}

#[test]
fn only_seller_escrows_or_cancels() {
    let (mut m, mut l) = opened();
    assert_eq!(m.escrow_coin(&mut l, B, 0), Err(Error::NotSeller));
    assert_eq!(m.escrow_coin(&mut l, C, 0), Err(Error::NotSeller));
    assert_eq!(Module::balanace(&l), 0);
    assert_eq!(l.balance(A), 100);
    assert_eq!(m.cancel_escrow(&mut l, B, 0, 50000), Err(Error::NotSeller));
    assert_eq!(m.escrow_coin(&mut l, A, 7), Err(Error::NoSuchTrade));
}

#[test]
fn only_buyer_confirms() {
    let (mut m, mut l) = escrowed();
    assert_eq!(m.confirm_received(&mut l, A, 0), Err(Error::NotBuyer));
    assert_eq!(m.confirm_received(&mut l, C, 0), Err(Error::NotBuyer));
    assert_eq!(l.balance(Module::account_id()), 50);
}

#[test]
fn unfunded_trade_cannot_settle() {
    let (mut m, mut l) = opened();
    assert_eq!(m.confirm_received(&mut l, B, 0), Err(Error::TradeNotEscrowed));
    assert_eq!(m.cancel_escrow(&mut l, A, 0, 50000), Err(Error::TradeNotEscrowed));
}

#[test]
fn failed_transfer_changes_nothing() {
    let (mut m, _) = opened();
    let mut poor = Ledger::new(&[(A, 10)]);
    assert_eq!(m.escrow_coin(&mut poor, A, 0), Err(Error::TransferFailure));
    assert!(!m.bazaar_trade(0).unwrap().escrowed);
    assert_eq!(poor.balance(A), 10);
}

#[test]
fn two_phase_steps() {
    let (mut m, _) = opened();
    let escrow = Module::account_id();
    assert_eq!(m.validate_escrow_coin(A, 0), Ok(Transfer { from: A, to: escrow, amount: 50 }));
    assert_eq!(m.apply_escrow_coin(0, Err(())), Err(Error::TransferFailure));
    assert!(!m.bazaar_trade(0).unwrap().escrowed);
    assert_eq!(m.apply_escrow_coin(0, Ok(())), Ok(()));
    assert_eq!(m.validate_confirm_received(B, 0), Ok(Transfer { from: escrow, to: B, amount: 50 }));
    assert_eq!(m.validate_cancel_escrow(A, 0, 14402), Ok(Transfer { from: escrow, to: A, amount: 50 }));
    assert_eq!(m.validate_cancel_escrow(A, 0, 0), Err(Error::TradeLessThanOneDay));
    assert_eq!(m.apply_confirm_received(0, Ok(())), Ok(()));
    assert_eq!(m.validate_cancel_escrow(A, 0, 14402), Err(Error::TradeAlreadyCompleted));
}

#[test]
fn escrow_balance_covers_held_trades() {
    let mut m = Module::new();
    assert_eq!(register(&mut m, A, 0), Ok(0));
    let mut l = Ledger::new(&[(A, 1000)]);
    for amount in [10u128, 20, 30] {
        m.initiate_buy(B, 1, amount, 0, 0);
    }
    for id in 0..3u128 {
        assert_eq!(m.escrow_coin(&mut l, A, id), Ok(()));
    }
    assert_eq!(Module::balanace(&l), 60);
    assert_eq!(m.confirm_received(&mut l, B, 1), Ok(()));
    assert_eq!(m.cancel_escrow(&mut l, A, 2, 20000), Ok(()));
    assert_eq!(Module::balanace(&l), 10);
}

#[test]
fn disputes_are_not_implemented() {
    let (m, _) = escrowed();
    assert_eq!(m.open_dispute(B, 0), Err(Error::NotImplemented));
    assert_eq!(m.close_dispute(B, 0, 50, 50), Err(Error::NotImplemented));
}

#[test]
fn open_trade_count_by_trader() {
    let mut m = Module::new();
    assert_eq!(register(&mut m, A, 0), Ok(0));
    assert_eq!(register(&mut m, C, 0), Ok(1));
    let mut l = Ledger::new(&[(A, 1000)]);
    for seller in [0u128, 0, 1, 0] {
        m.initiate_buy(B, 1, 10, seller, 0);
    }
    assert_eq!(m.bazaar_trade_count_by_trader(0), 3);
    assert_eq!(m.bazaar_trade_count_by_trader(1), 1);
    assert_eq!(m.bazaar_trade_count_by_trader(5), 0);
    assert_eq!(m.escrow_coin(&mut l, A, 0), Ok(()));
    assert_eq!(m.bazaar_trade_count_by_trader(0), 3);
    assert_eq!(m.confirm_received(&mut l, B, 0), Ok(()));
    assert_eq!(m.bazaar_trade_count_by_trader(0), 2);
    assert_eq!(m.escrow_coin(&mut l, A, 1), Ok(()));
    assert_eq!(m.cancel_escrow(&mut l, A, 1, 14401), Ok(()));
    assert_eq!(m.bazaar_trade_count_by_trader(0), 1);
    assert_eq!(m.bazaar_trade_count_by_trader(1), 1);
}
