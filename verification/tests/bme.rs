use pallet_suite::bme::{Error, Pallet};
use pallet_suite::primitives::{Origin, H256};

fn new_pallet() -> Pallet {
    // Elasticity 1.0 (10_000 bps).
    Pallet::new(10_000)
}

#[test]
fn burn_then_mint_works() {
    let mut p = new_pallet();
    assert!(p.submit_burn(Origin::Root, H256::repeat_byte(9), 1_000).is_ok());
    assert_eq!(p.cumulative_burn, 1_000);
    assert!(p.mint_to_operator(Origin::Root, 42, 500).is_ok());
    assert_eq!(p.cumulative_mint, 500);
    assert_eq!(p.operator_balance_of(&42), 500);
}

#[test]
fn duplicate_burn_batch_is_rejected() {
    let mut p = new_pallet();
    let batch = H256::repeat_byte(9);
    assert!(p.submit_burn(Origin::Root, batch, 1_000).is_ok());
    assert_eq!(p.submit_burn(Origin::Root, batch, 1_000), Err(Error::DuplicateBurnBatch));
    assert_eq!(p.cumulative_burn, 1_000);
}

#[test]
fn elasticity_persists() {
    let mut p = new_pallet();
    assert!(p.set_elasticity(Origin::Root, 12_000).is_ok());
    assert_eq!(p.elasticity, 12_000);
}

#[test]
fn signed_origin_rejected_on_privileged_calls() {
    let mut p = new_pallet();
    assert!(p.submit_burn(Origin::Signed(1), H256::repeat_byte(1), 100).is_err());
    assert!(p.mint_to_operator(Origin::Signed(1), 42, 10).is_err());
    assert!(p.set_elasticity(Origin::Signed(1), 1).is_err());
}

#[test]
fn mint_batch_enforces_headroom() {
    let mut p = new_pallet();
    assert!(p.submit_burn(Origin::Root, H256::repeat_byte(9), 1_000).is_ok());
    assert_eq!(p.mint_batch(1, vec![(42, 600), (43, 500)]), Err(Error::MintExceedsHeadroom));
    assert_eq!(p.cumulative_mint, 0);
    assert!(p.mint_batch(1, vec![(42, 600), (43, 400)]).is_ok());
    assert_eq!(p.cumulative_mint, 1_000);
    assert_eq!(p.operator_balance_of(&42), 600);
    assert_eq!(p.operator_balance_of(&43), 400);
}

#[test]
fn cumulative_mint_is_the_sum_of_balances_and_within_headroom() {
    let mut p = new_pallet();
    assert!(p.submit_burn(Origin::Root, H256::repeat_byte(1), 1_000).is_ok());
    assert!(p.mint_to_operator(Origin::Root, 7, 300).is_ok());
    assert!(p.mint_batch(1, vec![(7, 100), (8, 250), (9, 50)]).is_ok());
    assert_eq!(p.cumulative_mint, 700);
    let sum: u128 = [7u64, 8, 9].iter().map(|w| p.operator_balance_of(w)).sum();
    assert_eq!(sum, p.cumulative_mint);
    // 700 of the 1_000 headroom is used; 301 more would cross it.
    assert_eq!(p.mint_to_operator(Origin::Root, 7, 301), Err(Error::MintExceedsHeadroom));
    assert!(p.mint_to_operator(Origin::Root, 7, 300).is_ok());
    assert!(p.cumulative_mint <= p.cumulative_burn * p.elasticity as u128 / 10_000);
}

#[test]
fn lowering_elasticity_can_leave_mint_above_headroom() {
    let mut p = new_pallet();
    assert!(p.submit_burn(Origin::Root, H256::repeat_byte(1), 1_000).is_ok());
    assert!(p.mint_to_operator(Origin::Root, 7, 900).is_ok());
    assert!(p.set_elasticity(Origin::Root, 5_000).is_ok());
    assert!(p.cumulative_mint > p.cumulative_burn * p.elasticity as u128 / 10_000);
    assert_eq!(p.mint_to_operator(Origin::Root, 7, 1), Err(Error::MintExceedsHeadroom));
}
