use pallet_suite::pouw_mint::{Error, Pallet};
use pallet_suite::primitives::{Origin, H256};

#[test]
fn transcript_submission_dedups() {
    let mut p = Pallet::new();
    let h = H256::repeat_byte(5);
    assert!(p.submit_cupow_transcript(Origin::Signed(1), h, 1).is_ok());
    assert!(p.transcript(&h).is_some());
    assert_eq!(p.submit_cupow_transcript(Origin::Signed(1), h, 1), Err(Error::DuplicateTranscript));
}

#[test]
fn pouw_reward_disabled_at_tge() {
    let p = Pallet::new();
    assert_eq!(p.emit_pouw_reward(Origin::Root, 9, 100), Err(Error::Disabled));
}

#[test]
fn pouw_reward_rejects_signed_origin() {
    let p = Pallet::new();
    assert!(p.emit_pouw_reward(Origin::Signed(1), 9, 100).is_err());
}
