use pallet_suite::oracle_twap::Pallet;
use pallet_suite::primitives::Origin;

#[test]
fn submit_updates_twap_median() {
    let mut p = Pallet::new();
    assert!(p.submit_price(Origin::Root, 1_000_000, 1).is_ok());
    assert_eq!(p.current_twap(), 1_000_000);
    assert!(p.submit_price(Origin::Root, 2_000_000, 2).is_ok());
    // Median of [1_000_000, 2_000_000] at index len / 2 = 1 is 2_000_000.
    assert_eq!(p.current_twap(), 2_000_000);
    assert!(p.submit_price(Origin::Root, 500_000, 3).is_ok());
    assert_eq!(p.current_twap(), 1_000_000);
}

#[test]
fn empty_oracle_returns_zero() {
    let p = Pallet::new();
    assert_eq!(p.current_twap(), 0);
}

#[test]
fn signed_origin_rejected() {
    let mut p = Pallet::new();
    assert!(p.submit_price(Origin::Signed(1), 1_000_000, 1).is_err());
}
