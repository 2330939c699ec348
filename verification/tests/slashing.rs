use std::collections::HashMap;

use pallet_suite::operator_stake::{self, CurrencyHandle, ReservableCurrency};
use pallet_suite::primitives::{Origin, H256};
use pallet_suite::slashing::{ArbitrationVote, Config, Error, FaultCode, MultisigDecision, Pallet, SlashState};

/// A currency ledger with free and reserved balances.
struct Ledger {
    free: HashMap<u64, u128>,
    reserved: HashMap<u64, u128>,
}

impl ReservableCurrency for Ledger {
    fn reserve(&mut self, who: u64, amount: u128) -> Result<(), ()> {
        let free = self.free.get(&who).copied().unwrap_or(0);
        if free < amount {
            return Err(());
        }
        self.free.insert(who, free - amount);
        *self.reserved.entry(who).or_insert(0) += amount;
        Ok(())
    }

    fn unreserve(&mut self, who: u64, amount: u128) -> u128 {
        let reserved = self.reserved.get(&who).copied().unwrap_or(0);
        let moved = amount.min(reserved);
        self.reserved.insert(who, reserved - moved);
        *self.free.entry(who).or_insert(0) += moved;
        amount - moved
    }

    fn slash_reserved(&mut self, who: u64, amount: u128) -> u128 {
        let reserved = self.reserved.get(&who).copied().unwrap_or(0);
        let burned = amount.min(reserved);
        self.reserved.insert(who, reserved - burned);
        amount - burned
    }
}

struct Runtime {
    slashing: Pallet,
    operators: operator_stake::Pallet,
    ledger: CurrencyHandle<Ledger>,
}

fn new_runtime() -> Runtime {
    let mut free = HashMap::new();
    for who in [1u64, 2, 3, 42] {
        free.insert(who, 1_000_000_000);
    }
    Runtime {
        slashing: Pallet::new(Config { dispute_window: 10 }),
        operators: operator_stake::Pallet::new(operator_stake::Config {
            min_stake: 100,
            max_heartbeat_epoch_advance: 100,
        }),
        ledger: CurrencyHandle::new(Ledger { free, reserved: HashMap::new() }),
    }
}

fn register_and_accuse(rt: &mut Runtime) {
    assert!(rt
        .operators
        .register(&mut rt.ledger, Origin::Signed(42), 1_000, H256::repeat_byte(1), 1)
        .is_ok());
    assert!(rt
        .slashing
        .submit_slashing_evidence(
            &mut rt.operators,
            Origin::Root,
            42,
            FaultCode::WrongModel,
            H256::repeat_byte(7),
            1
        )
        .is_ok());
}

#[test]
fn slash_dispute_arbitrate_ratify_flow() {
    let mut rt = new_runtime();
    register_and_accuse(&mut rt);
    let s = rt.slashing.slash(0).unwrap();
    assert_eq!(s.severity_bps, 1000);
    assert_eq!(s.state, SlashState::Pending);
    assert!(rt.operators.operator(&42).unwrap().frozen);

    assert_eq!(
        rt.slashing.dispute_slashing(Origin::Signed(99), 0, H256::repeat_byte(8)),
        Err(Error::NotSlashOperator)
    );
    assert!(rt.slashing.dispute_slashing(Origin::Signed(42), 0, H256::repeat_byte(8)).is_ok());
    assert_eq!(rt.slashing.slash(0).unwrap().state, SlashState::Disputed);

    assert!(rt.slashing.arbitrate_dispute(Origin::Signed(99), 0, ArbitrationVote::Uphold).is_err());
    assert!(rt.slashing.arbitrate_dispute(Origin::Root, 0, ArbitrationVote::Uphold).is_ok());
    assert_eq!(rt.slashing.slash(0).unwrap().state, SlashState::Arbitrated);

    assert!(rt
        .slashing
        .ratify_dispute(&mut rt.operators, Origin::Signed(100), 0, MultisigDecision::Uphold)
        .is_err());
    assert!(rt
        .slashing
        .ratify_dispute(&mut rt.operators, Origin::Root, 0, MultisigDecision::Uphold)
        .is_ok());
    assert_eq!(rt.slashing.slash(0).unwrap().state, SlashState::Ratified);

    assert!(rt
        .slashing
        .finalize_slash(&mut rt.operators, &mut rt.ledger, Origin::Root, 0, 1)
        .is_ok());
    assert_eq!(rt.slashing.slash(0).unwrap().state, SlashState::Finalized);
    let op = rt.operators.operator(&42).unwrap();
    assert_eq!(op.stake, 900);
    assert!(!op.frozen);
}

#[test]
fn pending_slash_cannot_finalize_before_dispute_window() {
    let mut rt = new_runtime();
    register_and_accuse(&mut rt);
    assert_eq!(
        rt.slashing.finalize_slash(&mut rt.operators, &mut rt.ledger, Origin::Root, 0, 1),
        Err(Error::DisputeWindowOpen)
    );
    assert!(rt
        .slashing
        .finalize_slash(&mut rt.operators, &mut rt.ledger, Origin::Root, 0, 11)
        .is_ok());
    assert_eq!(rt.slashing.slash(0).unwrap().state, SlashState::Finalized);
}

#[test]
fn submit_requires_evidence_origin() {
    let mut rt = new_runtime();
    assert!(rt
        .slashing
        .submit_slashing_evidence(
            &mut rt.operators,
            Origin::Signed(1),
            42,
            FaultCode::WrongModel,
            H256::repeat_byte(7),
            1
        )
        .is_err());
}

#[test]
fn overturned_ratification_releases_freeze_without_slash() {
    let mut rt = new_runtime();
    register_and_accuse(&mut rt);
    assert!(rt.slashing.dispute_slashing(Origin::Signed(42), 0, H256::repeat_byte(8)).is_ok());
    assert!(rt.slashing.arbitrate_dispute(Origin::Root, 0, ArbitrationVote::Overturn).is_ok());
    assert!(rt
        .slashing
        .ratify_dispute(&mut rt.operators, Origin::Root, 0, MultisigDecision::Overturn)
        .is_ok());
    let op = rt.operators.operator(&42).unwrap();
    assert_eq!(op.stake, 1_000);
    assert!(!op.frozen);
    assert_eq!(rt.slashing.slash(0).unwrap().state, SlashState::Finalized);
    assert_eq!(
        rt.slashing.finalize_slash(&mut rt.operators, &mut rt.ledger, Origin::Root, 0, 1),
        Err(Error::BadState)
    );
}

#[test]
fn fault_severity_table_matches_rfc() {
    assert_eq!(FaultCode::WrongModel.base_severity_bps(), 1000);
    assert_eq!(FaultCode::WrongResponse.base_severity_bps(), 500);
    assert_eq!(FaultCode::DeviceCertCollision.base_severity_bps(), 10_000);
    assert_eq!(FaultCode::FakeBurn.base_severity_bps(), 5000);
    assert_eq!(FaultCode::HeartbeatMiss.base_severity_bps(), 0);
}

#[test]
fn freeze_count_tracks_open_slashes() {
    let mut rt = new_runtime();
    register_and_accuse(&mut rt);
    for fault in [FaultCode::WrongResponse, FaultCode::CacheReplay] {
        assert!(rt
            .slashing
            .submit_slashing_evidence(&mut rt.operators, Origin::Root, 42, fault, H256::repeat_byte(9), 2)
            .is_ok());
    }
    assert_eq!(rt.operators.operator(&42).unwrap().pending_freezes, 3);

    // Slash 0 is overturned: one freeze released, no stake burned.
    assert!(rt.slashing.dispute_slashing(Origin::Signed(42), 0, H256::repeat_byte(8)).is_ok());
    assert!(rt.slashing.arbitrate_dispute(Origin::Root, 0, ArbitrationVote::Overturn).is_ok());
    assert!(rt
        .slashing
        .ratify_dispute(&mut rt.operators, Origin::Root, 0, MultisigDecision::Overturn)
        .is_ok());
    let op = rt.operators.operator(&42).unwrap();
    assert_eq!((op.pending_freezes, op.frozen, op.stake), (2, true, 1_000));

    // Slash 1 finalizes after its window: 5% burned, one more freeze released.
    assert!(rt.slashing.finalize_slash(&mut rt.operators, &mut rt.ledger, Origin::Root, 1, 12).is_ok());
    let op = rt.operators.operator(&42).unwrap();
    assert_eq!((op.pending_freezes, op.frozen, op.stake), (1, true, 950));
    assert_eq!(
        rt.operators.unregister(&mut rt.ledger, Origin::Signed(42)),
        Err(operator_stake::Error::Frozen)
    );

    // The last one thaws the operator, which may then leave.
    assert!(rt.slashing.finalize_slash(&mut rt.operators, &mut rt.ledger, Origin::Root, 2, 12).is_ok());
    let op = rt.operators.operator(&42).unwrap();
    assert_eq!((op.pending_freezes, op.frozen), (0, false));
    assert!(rt.operators.unregister(&mut rt.ledger, Origin::Signed(42)).is_ok());
}

#[test]
fn finalized_slash_never_moves_again() {
    let mut rt = new_runtime();
    register_and_accuse(&mut rt);
    assert!(rt.slashing.finalize_slash(&mut rt.operators, &mut rt.ledger, Origin::Root, 0, 11).is_ok());
    let finalized = rt.slashing.slash(0).unwrap();
    assert_eq!(finalized.state, SlashState::Finalized);
    assert_eq!(
        rt.slashing.dispute_slashing(Origin::Signed(42), 0, H256::repeat_byte(8)),
        Err(Error::BadState)
    );
    assert_eq!(
        rt.slashing.arbitrate_dispute(Origin::Root, 0, ArbitrationVote::Uphold),
        Err(Error::BadState)
    );
    assert_eq!(
        rt.slashing.ratify_dispute(&mut rt.operators, Origin::Root, 0, MultisigDecision::Uphold),
        Err(Error::BadState)
    );
    assert_eq!(
        rt.slashing.finalize_slash(&mut rt.operators, &mut rt.ledger, Origin::Root, 0, 40),
        Err(Error::BadState)
    );
    assert_eq!(rt.slashing.slash(0).unwrap(), finalized);
}

#[test]
fn evidence_against_an_unregistered_account_is_recorded_without_freeze() {
    let mut rt = new_runtime();
    assert_eq!(
        rt.slashing.submit_slashing_evidence(
            &mut rt.operators,
            Origin::Root,
            7,
            FaultCode::CacheReplay,
            H256::repeat_byte(5),
            3
        ),
        Ok(pallet_suite::slashing::Event::SlashSubmitted {
            slash_id: 0,
            operator: 7,
            fault_code: FaultCode::CacheReplay
        })
    );
    let s = rt.slashing.slash(0).unwrap();
    assert_eq!((s.operator, s.severity_bps, s.state, s.created_at), (7, 500, SlashState::Pending, 3));
    assert!(rt.operators.operator(&7).is_none());
    assert!(rt.slashing.finalize_slash(&mut rt.operators, &mut rt.ledger, Origin::Root, 0, 13).is_ok());
    assert_eq!(rt.slashing.slash(0).unwrap().state, SlashState::Finalized);
    assert!(rt.operators.operator(&7).is_none());
}

#[test]
fn arbiter_votes_and_ratifications_are_recorded() {
    let mut rt = new_runtime();
    register_and_accuse(&mut rt);
    assert!(rt.slashing.dispute_slashing(Origin::Signed(42), 0, H256::repeat_byte(8)).is_ok());
    assert!(rt.slashing.arbitrate_dispute(Origin::Root, 0, ArbitrationVote::Insufficient).is_ok());
    assert_eq!(
        rt.slashing.arbitration_votes.get(&0).cloned(),
        Some(vec![(0, ArbitrationVote::Insufficient)])
    );
    assert!(rt
        .slashing
        .ratify_dispute(&mut rt.operators, Origin::Root, 0, MultisigDecision::Uphold)
        .is_ok());
    assert_eq!(
        rt.slashing.ratification_votes.get(&0).cloned(),
        Some(vec![(0, MultisigDecision::Uphold)])
    );
}
