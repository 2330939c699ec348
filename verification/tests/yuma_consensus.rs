use pallet_suite::primitives::Origin;
use pallet_suite::primitives::{RuntimeDbWeight, Weight};
use pallet_suite::yuma_consensus::migration::{items_to_clear, StorageItem};
use pallet_suite::yuma_consensus::{Config, Error, Pallet};

fn new_pallet() -> Pallet {
    Pallet::new(Config {
        max_validators: 3,
        max_permitted_validators: 2,
        max_weight_vector_len: 4,
        max_entity_stake_bps: 6_000,
    })
}

fn rotate_permits(p: &mut Pallet, epoch: u64) {
    assert!(p.rotate_permits(Origin::Root, epoch).is_ok());
}

#[test]
fn submit_then_compute_aggregates_scores() {
    let mut p = new_pallet();
    assert!(p.add_validator(Origin::Root, 1, 100, 1).is_ok());
    assert!(p.add_validator(Origin::Root, 2, 100, 2).is_ok());
    rotate_permits(&mut p, 7);
    assert!(p.submit_weights(Origin::Signed(1), 7, vec![(100, 1000), (101, 2000)]).is_ok());
    assert!(p.submit_weights(Origin::Signed(2), 7, vec![(100, 500), (101, 1000)]).is_ok());
    assert!(p.compute_epoch_incentives(Origin::Root, 7).is_ok());
    assert_eq!(p.epoch_incentive(7, 100), 3333);
    assert_eq!(p.epoch_incentive(7, 101), 6666);
}

#[test]
fn governed_validator_membership_controls_submitters() {
    let mut p = new_pallet();
    assert_eq!(
        p.submit_weights(Origin::Signed(1), 7, vec![(100, 1000)]),
        Err(Error::UnauthorizedValidator)
    );
    assert_eq!(p.weights.len(), 0);
    assert!(p.add_validator(Origin::Root, 1, 100, 1).is_ok());
    assert_eq!(p.validator_count, 1);
    assert!(p.validator(&1).is_some());
    assert_eq!(
        p.submit_weights(Origin::Signed(1), 7, vec![(100, 1000)]),
        Err(Error::UnauthorizedValidator)
    );
    assert_eq!(p.weights.len(), 0);
    rotate_permits(&mut p, 7);
    assert!(p.submit_weights(Origin::Signed(1), 7, vec![(100, 1000)]).is_ok());
    assert!(p.remove_validator(Origin::Root, 1).is_ok());
    assert_eq!(p.validator_count, 0);
    assert_eq!(
        p.submit_weights(Origin::Signed(1), 8, vec![(100, 1000)]),
        Err(Error::UnauthorizedValidator)
    );
    assert_eq!(p.weights.len(), 1);
}

#[test]
fn finalized_epoch_rejects_late_weight_submissions() {
    let mut p = new_pallet();
    assert!(p.add_validator(Origin::Root, 1, 100, 1).is_ok());
    rotate_permits(&mut p, 7);
    assert!(p.compute_epoch_incentives(Origin::Root, 7).is_ok());
    assert_eq!(
        p.submit_weights(Origin::Signed(1), 7, vec![(100, 1000)]),
        Err(Error::EpochAlreadyComputed)
    );
    assert_eq!(p.weights.len(), 0);
}

#[test]
fn validator_weight_vector_length_is_bounded() {
    let mut p = new_pallet();
    assert!(p.add_validator(Origin::Root, 1, 100, 1).is_ok());
    rotate_permits(&mut p, 7);
    assert_eq!(
        p.submit_weights(
            Origin::Signed(1),
            7,
            vec![(100, 1), (101, 1), (102, 1), (103, 1), (104, 1)]
        ),
        Err(Error::WeightVectorTooLarge)
    );
    assert_eq!(p.weights.len(), 0);
}

#[test]
fn validator_membership_requires_governance_and_respects_bound() {
    let mut p = new_pallet();
    assert!(p.add_validator(Origin::Signed(1), 1, 100, 1).is_err());
    assert!(p.add_validator(Origin::Root, 1, 100, 1).is_ok());
    assert_eq!(p.add_validator(Origin::Root, 1, 100, 1), Err(Error::ValidatorAlreadyExists));
    assert!(p.add_validator(Origin::Root, 2, 100, 2).is_ok());
    assert!(p.add_validator(Origin::Root, 3, 100, 3).is_ok());
    assert_eq!(p.add_validator(Origin::Root, 4, 100, 4), Err(Error::TooManyValidators));
    assert_eq!(p.remove_validator(Origin::Root, 4), Err(Error::ValidatorNotFound));
}

#[test]
fn validator_entity_concentration_cap_is_enforced_on_updates() {
    let mut p = new_pallet();
    assert!(p.add_validator(Origin::Root, 1, 100, 1).is_ok());
    assert!(p.add_validator(Origin::Root, 2, 100, 2).is_ok());
    assert!(p.update_validator_stake(Origin::Root, 1, 150, 1).is_ok());
    assert_eq!(
        p.update_validator_stake(Origin::Root, 1, 200, 1),
        Err(Error::EntityStakeCapExceeded)
    );
    assert_eq!(
        p.update_validator_stake(Origin::Root, 1, 0, 1),
        Err(Error::InvalidValidatorStake)
    );
}

#[test]
fn entity_cap_is_checked_globally_after_bootstrap() {
    let mut p = new_pallet();
    assert!(p.add_validator(Origin::Root, 1, 100, 1).is_ok());
    assert_eq!(p.add_validator(Origin::Root, 2, 1, 2), Err(Error::EntityStakeCapExceeded));
}

#[test]
fn submitted_weights_use_stake_snapshot_even_if_membership_changes_before_compute() {
    let mut p = new_pallet();
    assert!(p.add_validator(Origin::Root, 1, 100, 1).is_ok());
    assert!(p.add_validator(Origin::Root, 2, 100, 2).is_ok());
    rotate_permits(&mut p, 7);
    assert!(p.submit_weights(Origin::Signed(1), 7, vec![(100, 1000)]).is_ok());
    assert!(p.submit_weights(Origin::Signed(2), 7, vec![(101, 1000)]).is_ok());
    assert!(p.remove_validator(Origin::Root, 1).is_ok());
    assert!(p.compute_epoch_incentives(Origin::Root, 7).is_ok());
    assert_eq!(p.epoch_incentive(7, 100), 5000);
    assert_eq!(p.epoch_incentive(7, 101), 5000);
}

#[test]
fn rotate_permits_selects_top_stake_validators() {
    let mut p = new_pallet();
    assert!(p.add_validator(Origin::Root, 1, 100, 1).is_ok());
    assert!(p.add_validator(Origin::Root, 2, 150, 2).is_ok());
    assert!(p.add_validator(Origin::Root, 3, 125, 3).is_ok());
    rotate_permits(&mut p, 7);
    assert!(!p.contains(&1));
    assert!(p.contains(&2));
    assert!(p.contains(&3));
    assert_eq!(
        p.submit_weights(Origin::Signed(1), 7, vec![(100, 1000)]),
        Err(Error::UnauthorizedValidator)
    );
    assert!(p.submit_weights(Origin::Signed(2), 7, vec![(100, 1000)]).is_ok());
}

#[test]
fn permits_are_epoch_scoped_and_cannot_rotate_after_submissions() {
    let mut p = new_pallet();
    assert!(p.add_validator(Origin::Root, 1, 100, 1).is_ok());
    rotate_permits(&mut p, 7);
    assert!(p.submit_weights(Origin::Signed(1), 7, vec![(100, 1000)]).is_ok());
    assert_eq!(
        p.submit_weights(Origin::Signed(1), 8, vec![(100, 1000)]),
        Err(Error::UnauthorizedValidator)
    );
    assert_eq!(p.rotate_permits(Origin::Root, 7), Err(Error::EpochAlreadyStarted));
}

#[test]
fn epoch_permits_snapshot_validator_stake() {
    let mut p = new_pallet();
    assert!(p.add_validator(Origin::Root, 1, 100, 1).is_ok());
    rotate_permits(&mut p, 7);
    assert!(p.remove_validator(Origin::Root, 1).is_ok());
    assert!(p.add_validator(Origin::Root, 1, 500, 1).is_ok());
    assert!(p.submit_weights(Origin::Signed(1), 7, vec![(100, 10)]).is_ok());
    assert!(p.compute_epoch_incentives(Origin::Root, 7).is_ok());
    assert_eq!(p.epoch_score_total(7, 100), 1_000);
}

#[test]
fn compute_clips_scores_to_operator_median() {
    let mut p = new_pallet();
    assert!(p.add_validator(Origin::Root, 1, 100, 1).is_ok());
    assert!(p.add_validator(Origin::Root, 2, 100, 2).is_ok());
    rotate_permits(&mut p, 7);
    assert!(p.submit_weights(Origin::Signed(1), 7, vec![(100, 60_000)]).is_ok());
    assert!(p.submit_weights(Origin::Signed(2), 7, vec![(100, 100)]).is_ok());
    assert!(p.compute_epoch_incentives(Origin::Root, 7).is_ok());
    assert_eq!(p.epoch_score_total(7, 100), 20_000);
    assert_eq!(p.epoch_incentive(7, 100), 10_000);
}

#[test]
fn double_compute_rejected() {
    let mut p = new_pallet();
    assert!(p.compute_epoch_incentives(Origin::Root, 42).is_ok());
    assert_eq!(p.compute_epoch_incentives(Origin::Root, 42), Err(Error::EpochAlreadyComputed));
}

#[test]
fn empty_epoch_compiles() {
    let mut p = new_pallet();
    assert!(p.compute_epoch_incentives(Origin::Root, 42).is_ok());
}

#[test]
fn compute_requires_authorized_origin() {
    let mut p = new_pallet();
    assert!(p.compute_epoch_incentives(Origin::Signed(1), 42).is_err());
}

#[test]
fn validator_books_follow_membership_changes() {
    let mut p = Pallet::new(Config {
        max_validators: 4,
        max_permitted_validators: 2,
        max_weight_vector_len: 4,
        max_entity_stake_bps: 10_000,
    });
    assert!(p.add_validator(Origin::Root, 1, 100, 7).is_ok());
    assert!(p.add_validator(Origin::Root, 2, 50, 7).is_ok());
    assert!(p.add_validator(Origin::Root, 3, 30, 9).is_ok());
    assert_eq!(p.validator_count, 3);
    assert_eq!(p.total_validator_stake, 180);
    assert_eq!(p.entity_count, 2);
    assert_eq!(p.entity_stake.get(&7).copied(), Some(150));
    assert_eq!(p.entity_stake.get(&9).copied(), Some(30));

    assert!(p.update_validator_stake(Origin::Root, 2, 20, 9).is_ok());
    assert_eq!(p.total_validator_stake, 150);
    assert_eq!(p.entity_stake.get(&7).copied(), Some(100));
    assert_eq!(p.entity_stake.get(&9).copied(), Some(50));
    assert_eq!(p.entity_count, 2);

    assert!(p.remove_validator(Origin::Root, 1).is_ok());
    assert_eq!(p.validator_count, 2);
    assert_eq!(p.total_validator_stake, 50);
    assert_eq!(p.entity_stake.get(&7).copied(), None);
    assert_eq!(p.entity_count, 1);

    assert!(p.rotate_permits(Origin::Root, 1).is_ok());
    assert_eq!(p.permit_count, 2);
    assert!(p.remove_validator(Origin::Root, 3).is_ok());
    assert_eq!(p.permit_count, 1);
    assert!(!p.contains(&3));
    assert!(p.contains(&2));
}

#[test]
fn epoch_shares_add_up_to_at_most_the_whole() {
    let mut p = new_pallet();
    assert!(p.add_validator(Origin::Root, 1, 100, 1).is_ok());
    assert!(p.add_validator(Origin::Root, 2, 100, 2).is_ok());
    rotate_permits(&mut p, 3);
    let vector = vec![(100, 1000), (101, 1000), (102, 1000)];
    assert!(p.submit_weights(Origin::Signed(1), 3, vector.clone()).is_ok());
    assert!(p.submit_weights(Origin::Signed(2), 3, vector).is_ok());
    assert!(p.compute_epoch_incentives(Origin::Root, 3).is_ok());
    let shares: Vec<u32> = [100u64, 101, 102].iter().map(|op| p.epoch_incentive(3, *op)).collect();
    assert_eq!(shares, vec![3333, 3333, 3333]);
    assert!(shares.iter().sum::<u32>() <= 10_000);
}

fn populated_pallet() -> Pallet {
    let mut p = new_pallet();
    assert!(p.add_validator(Origin::Root, 1, 100, 1).is_ok());
    assert!(p.add_validator(Origin::Root, 2, 100, 2).is_ok());
    rotate_permits(&mut p, 7);
    assert!(p.submit_weights(Origin::Signed(1), 7, vec![(100, 1000)]).is_ok());
    assert!(p.compute_epoch_incentives(Origin::Root, 7).is_ok());
    p
}

#[test]
fn upgrade_from_first_layout_clears_everything() {
    let mut p = populated_pallet();
    let db = RuntimeDbWeight { read: 25, write: 100 };
    p.storage_version = 1;
    let w = p.on_runtime_upgrade(db, 9);
    assert_eq!(w, Weight { ref_time: 25 + 100 * 10, proof_size: 0 });
    assert_eq!(p.storage_version, 3);
    assert_eq!(p.validator_count, 0);
    assert_eq!(p.total_validator_stake, 0);
    assert_eq!(p.entity_count, 0);
    assert_eq!(p.permit_count, 0);
    assert!(p.validator(&1).is_none());
    assert_eq!(p.epoch_incentive(7, 100), 0);
    assert!(!p.is_computed(7));
}

#[test]
fn upgrade_from_second_layout_clears_only_permits() {
    let mut p = populated_pallet();
    let db = RuntimeDbWeight { read: 25, write: 100 };
    p.storage_version = 2;
    let w = p.on_runtime_upgrade(db, 3);
    assert_eq!(w, Weight { ref_time: 25 + 100 * 4, proof_size: 0 });
    assert_eq!(p.storage_version, 3);
    assert_eq!(p.permit_count, 0);
    assert!(!p.contains(&1));
    assert_eq!(p.validator_count, 2);
    assert_eq!(p.total_validator_stake, 200);
    assert_eq!(p.epoch_incentive(7, 100), 10_000);
    assert!(p.is_computed(7));
    // A second upgrade finds the current layout and does nothing.
    assert!(p.add_validator(Origin::Root, 3, 50, 3).is_ok());
    assert_eq!(p.on_runtime_upgrade(db, 7), Weight { ref_time: 0, proof_size: 0 });
    assert_eq!(p.validator_count, 3);
}

#[test]
fn upgrade_at_current_layout_is_free_and_keeps_storage() {
    let mut p = populated_pallet();
    assert_eq!(p.storage_version, 3);
    let w = p.on_runtime_upgrade(RuntimeDbWeight { read: 25, write: 100 }, 0);
    assert_eq!(w, Weight { ref_time: 0, proof_size: 0 });
    assert_eq!(p.permit_count, 2);
    assert_eq!(p.validator_count, 2);
    assert_eq!(StorageItem::EpochPermitCount.name(), "EpochPermitCount");
    assert_eq!(items_to_clear(2).len(), 4);
}

#[test]
fn equal_stake_permits_go_by_encoded_account_order() {
    let mut p = new_pallet();
    // Little-endian SCALE encodings order 256 ([0, 1, ..]) before 1 ([1, 0, ..])
    // before 2 ([2, 0, ..]); numeric order would pick 1 and 2.
    assert!(p.add_validator(Origin::Root, 1, 100, 1).is_ok());
    assert!(p.add_validator(Origin::Root, 2, 100, 2).is_ok());
    assert!(p.add_validator(Origin::Root, 256, 100, 3).is_ok());
    rotate_permits(&mut p, 5);
    assert!(p.contains(&256));
    assert!(p.contains(&1));
    assert!(!p.contains(&2));
}

#[test]
fn adding_then_removing_a_validator_restores_the_books() {
    let mut p = new_pallet();
    assert!(p.add_validator(Origin::Root, 1, 100, 1).is_ok());
    assert!(p.add_validator(Origin::Root, 2, 100, 2).is_ok());
    rotate_permits(&mut p, 4);
    let before = (p.validator_count, p.total_validator_stake, p.entity_count, p.permit_count);
    assert!(p.add_validator(Origin::Root, 3, 50, 3).is_ok());
    assert!(p.remove_validator(Origin::Root, 3).is_ok());
    assert_eq!((p.validator_count, p.total_validator_stake, p.entity_count, p.permit_count), before);
    assert_eq!(p.entity_stake.get(&3), None);
    assert!(p.validator(&3).is_none());
    assert!(p.contains(&1) && p.contains(&2));
}

#[test]
fn over_cap_epoch_takes_submissions_in_storage_order() {
    let mut p = new_pallet();
    assert!(p.add_validator(Origin::Root, 2, 100, 2).is_ok());
    assert!(p.add_validator(Origin::Root, 1, 100, 1).is_ok());
    rotate_permits(&mut p, 9);
    assert!(p.submit_weights(Origin::Signed(2), 9, vec![(100, 1000)]).is_ok());
    assert!(p.submit_weights(Origin::Signed(1), 9, vec![(101, 1000)]).is_ok());
    // Lowered by a later upgrade: only one submission is aggregated, the one
    // whose account's storage key sorts first (blake2_128 of 1u64 sorts
    // before that of 2u64).
    p.config.max_validators = 1;
    assert!(p.compute_epoch_incentives(Origin::Root, 9).is_ok());
    assert_eq!(p.epoch_incentive(9, 101), 10_000);
    assert_eq!(p.epoch_incentive(9, 100), 0);
}
