use pallet_suite::job_market::{Error, JobState, Pallet};
use pallet_suite::primitives::{Origin, H256};

#[test]
fn job_lifecycle_submit_assign_finalize() {
    let mut p = Pallet::new();
    let jid = H256::repeat_byte(11);
    assert!(p.submit_job(Origin::Signed(1), jid, 2, H256::repeat_byte(22), None, 1).is_ok());
    assert_eq!(p.job(&jid).unwrap().state, JobState::Submitted);
    assert!(p.assign(Origin::Signed(2), jid, 3).is_err());
    assert!(p.assign(Origin::Root, jid, 3).is_ok());
    assert_eq!(p.job(&jid).unwrap().state, JobState::Assigned);
    assert!(p.finalize(Origin::Root, jid).is_ok());
    assert_eq!(p.job(&jid).unwrap().state, JobState::Finalized);
}

#[test]
fn dispute_moves_state_for_customer() {
    let mut p = Pallet::new();
    let jid = H256::repeat_byte(33);
    assert!(p.submit_job(Origin::Signed(1), jid, 2, H256::repeat_byte(44), None, 1).is_ok());
    assert_eq!(p.dispute(Origin::Signed(99), jid), Err(Error::NotAuthorized));
    assert!(p.dispute(Origin::Signed(1), jid).is_ok());
    assert_eq!(p.job(&jid).unwrap().state, JobState::Disputed);
}

#[test]
fn cannot_dispute_finalized_job() {
    let mut p = Pallet::new();
    let jid = H256::repeat_byte(55);
    assert!(p.submit_job(Origin::Signed(1), jid, 2, H256::repeat_byte(44), None, 1).is_ok());
    assert!(p.assign(Origin::Root, jid, 3).is_ok());
    assert!(p.finalize(Origin::Root, jid).is_ok());
    assert_eq!(p.dispute(Origin::Signed(1), jid), Err(Error::BadState));
}
