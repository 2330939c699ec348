use pallet_suite::primitives::Origin;
use pallet_suite::treasury_ext::{Config, Error, Pallet, ProposalState};

fn new_pallet() -> Pallet {
    // Council members 1, 2 and 3; threshold 2.
    let mut p = Pallet::new(Config { council: vec![1, 2, 3] });
    p.set_threshold(2);
    p
}

#[test]
fn proposal_executes_at_threshold() {
    let mut p = new_pallet();
    assert!(p.propose_spend(Origin::Signed(1), 42, 1_000, 1).is_ok());
    assert_eq!(p.proposal_state(0), Some(ProposalState::Pending));
    assert!(p.execute_spend(Origin::Signed(2), 0).is_ok());
    assert_eq!(p.execute_spend(Origin::Signed(2), 0), Err(Error::AlreadyApproved));
    assert_eq!(p.proposal_state(0), Some(ProposalState::Pending));
    assert!(p.execute_spend(Origin::Signed(3), 0).is_ok());
    assert_eq!(p.proposal_state(0), Some(ProposalState::Executed));
}

#[test]
fn non_council_rejected() {
    let mut p = new_pallet();
    assert_eq!(p.propose_spend(Origin::Signed(99), 42, 1_000, 1), Err(Error::NotCouncilMember));
    assert!(p.propose_spend(Origin::Signed(1), 42, 1_000, 1).is_ok());
    assert_eq!(p.execute_spend(Origin::Signed(99), 0), Err(Error::NotCouncilMember));
}
