use std::collections::HashMap;

use pallet_suite::operator_stake::{Config, CurrencyHandle, Error, Pallet, ReservableCurrency};
use pallet_suite::primitives::{Origin, H256};

/// A currency ledger with free and reserved balances.
struct Balances {
    free: HashMap<u64, u128>,
    reserved: HashMap<u64, u128>,
}

impl Balances {
    fn endowed() -> Balances {
        let mut free = HashMap::new();
        for who in [1u64, 2, 3, 42] {
            free.insert(who, 1_000_000_000);
        }
        Balances { free, reserved: HashMap::new() }
    }
}

impl ReservableCurrency for Balances {
    fn reserve(&mut self, who: u64, amount: u128) -> Result<(), ()> {
        let free = self.free.get(&who).copied().unwrap_or(0);
        if free < amount {
            return Err(());
        }
        self.free.insert(who, free - amount);
        *self.reserved.entry(who).or_insert(0) += amount;
        Ok(())
    }

    fn unreserve(&mut self, who: u64, amount: u128) -> u128 {
        let reserved = self.reserved.get(&who).copied().unwrap_or(0);
        let moved = amount.min(reserved);
        self.reserved.insert(who, reserved - moved);
        *self.free.entry(who).or_insert(0) += moved;
        amount - moved
    }

    fn slash_reserved(&mut self, who: u64, amount: u128) -> u128 {
        let reserved = self.reserved.get(&who).copied().unwrap_or(0);
        let burned = amount.min(reserved);
        self.reserved.insert(who, reserved - burned);
        amount - burned
    }
}

fn new_pallet() -> Pallet {
    Pallet::new(Config { min_stake: 100, max_heartbeat_epoch_advance: 100 })
}

#[test]
fn register_and_heartbeat_works() {
    let mut p = new_pallet();
    let mut b = CurrencyHandle::new(Balances::endowed());
    assert!(p.register(&mut b, Origin::Signed(1), 100, H256::repeat_byte(1), 1).is_ok());
    assert_eq!(p.total_stake, 100);
    assert!(p.operator(&1).is_some());
    assert!(p.heartbeat(Origin::Signed(1), 42, H256::repeat_byte(2), H256::repeat_byte(3)).is_ok());
    assert_eq!(p.operator(&1).unwrap().last_heartbeat_epoch, 42);
}

#[test]
fn double_register_fails() {
    let mut p = new_pallet();
    let mut b = CurrencyHandle::new(Balances::endowed());
    assert!(p.register(&mut b, Origin::Signed(1), 100, H256::repeat_byte(1), 1).is_ok());
    assert_eq!(
        p.register(&mut b, Origin::Signed(1), 100, H256::repeat_byte(1), 1),
        Err(Error::AlreadyRegistered)
    );
}

#[test]
fn register_requires_minimum_stake() {
    let mut p = new_pallet();
    let mut b = CurrencyHandle::new(Balances::endowed());
    assert_eq!(
        p.register(&mut b, Origin::Signed(1), 99, H256::repeat_byte(1), 1),
        Err(Error::InsufficientStake)
    );
}

#[test]
fn heartbeat_must_be_monotonic_and_bounded() {
    let mut p = new_pallet();
    let mut b = CurrencyHandle::new(Balances::endowed());
    assert!(p.register(&mut b, Origin::Signed(1), 100, H256::repeat_byte(1), 1).is_ok());
    assert!(p.heartbeat(Origin::Signed(1), 10, H256::repeat_byte(2), H256::repeat_byte(3)).is_ok());
    assert_eq!(
        p.heartbeat(Origin::Signed(1), 9, H256::repeat_byte(2), H256::repeat_byte(3)),
        Err(Error::HeartbeatEpochStale)
    );
    assert_eq!(
        p.heartbeat(Origin::Signed(1), 111, H256::repeat_byte(2), H256::repeat_byte(3)),
        Err(Error::HeartbeatEpochTooFarAhead)
    );
}

#[test]
fn slash_requires_root_origin() {
    let mut p = new_pallet();
    let mut b = CurrencyHandle::new(Balances::endowed());
    assert!(p.register(&mut b, Origin::Signed(1), 100, H256::repeat_byte(1), 1).is_ok());
    assert!(p.slash(&mut b, Origin::Signed(99), 1, 10, 0).is_err());
    assert!(p.slash(&mut b, Origin::Root, 1, 10, 0).is_ok());
    assert_eq!(p.operator(&1).unwrap().stake, 90);
}

#[test]
fn frozen_operator_cannot_exit_or_heartbeat() {
    let mut p = new_pallet();
    let mut b = CurrencyHandle::new(Balances::endowed());
    assert!(p.register(&mut b, Origin::Signed(1), 100, H256::repeat_byte(1), 1).is_ok());
    assert!(p.freeze_operator(&1).is_ok());
    assert_eq!(p.unregister(&mut b, Origin::Signed(1)), Err(Error::Frozen));
    assert_eq!(
        p.heartbeat(Origin::Signed(1), 1, H256::repeat_byte(2), H256::repeat_byte(3)),
        Err(Error::Frozen)
    );
}

#[test]
fn multiple_pending_freezes_require_multiple_releases() {
    let mut p = new_pallet();
    let mut b = CurrencyHandle::new(Balances::endowed());
    assert!(p.register(&mut b, Origin::Signed(1), 100, H256::repeat_byte(1), 1).is_ok());
    assert!(p.freeze_operator(&1).is_ok());
    assert!(p.freeze_operator(&1).is_ok());
    let op = p.operator(&1).unwrap();
    assert!(op.frozen);
    assert_eq!(op.pending_freezes, 2);

    assert!(p.unfreeze_operator(&1).is_ok());
    let op = p.operator(&1).unwrap();
    assert!(op.frozen);
    assert_eq!(op.pending_freezes, 1);
    assert_eq!(p.unregister(&mut b, Origin::Signed(1)), Err(Error::Frozen));

    assert!(p.slash_operator_by_bps(&mut b, &1, 1_000, 42).is_ok());
    let op = p.operator(&1).unwrap();
    assert!(!op.frozen);
    assert_eq!(op.pending_freezes, 0);
    assert_eq!(op.stake, 90);
}

#[test]
fn total_stake_is_the_sum_of_operator_stakes() {
    let mut p = new_pallet();
    let mut b = CurrencyHandle::new(Balances::endowed());
    assert!(p.register(&mut b, Origin::Signed(1), 1_000, H256::repeat_byte(1), 1).is_ok());
    assert!(p.register(&mut b, Origin::Signed(2), 300, H256::repeat_byte(2), 1).is_ok());
    assert!(p.register(&mut b, Origin::Signed(3), 200, H256::repeat_byte(3), 1).is_ok());
    assert_eq!(p.total_stake, 1_500);
    assert!(p.slash(&mut b, Origin::Root, 1, 250, 4).is_ok());
    assert_eq!(p.total_stake, 1_250);
    assert!(p.slash(&mut b, Origin::Root, 3, 10_000, 4).is_ok());
    assert_eq!(p.operator(&3).unwrap().stake, 0);
    assert_eq!(p.total_stake, 1_050);
    assert!(p.unregister(&mut b, Origin::Signed(2)).is_ok());
    let sum: u128 = [1u64, 2, 3].iter().filter_map(|w| p.operator(w)).map(|op| op.stake).sum();
    assert_eq!(p.total_stake, sum);
    assert_eq!(sum, 750);
}

#[test]
fn stake_moves_through_the_currency_exactly() {
    let mut p = new_pallet();
    let mut b = CurrencyHandle::new(Balances::endowed());
    assert!(p.register(&mut b, Origin::Signed(1), 1_000, H256::repeat_byte(1), 1).is_ok());
    assert_eq!(b.currency().reserved.get(&1).copied(), Some(1_000));
    assert_eq!(b.currency().free.get(&1).copied(), Some(1_000_000_000 - 1_000));
    assert!(p.slash(&mut b, Origin::Root, 1, 300, 4).is_ok());
    assert_eq!(b.currency().reserved.get(&1).copied(), Some(700));
    assert!(p.unregister(&mut b, Origin::Signed(1)).is_ok());
    assert_eq!(b.currency().reserved.get(&1).copied(), Some(0));
    assert_eq!(b.currency().free.get(&1).copied(), Some(1_000_000_000 - 300));
}

#[test]
fn completing_a_registration_twice_is_refused() {
    let mut p = new_pallet();
    assert!(p.complete_registration(5, 500, H256::zero(), 1, Ok(())).is_ok());
    assert_eq!(
        p.complete_registration(5, 900, H256::zero(), 2, Ok(())),
        Err(Error::AlreadyRegistered)
    );
    assert_eq!(p.operator(&5).unwrap().stake, 500);
    assert_eq!(p.total_stake, 500);
}
