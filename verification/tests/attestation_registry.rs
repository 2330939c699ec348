use pallet_suite::attestation_registry::{CrlKind, Pallet};
use pallet_suite::primitives::{Origin, H256};

#[test]
fn submit_and_revoke_works() {
    let mut p = Pallet::new();
    let h = H256::repeat_byte(1);
    assert!(p
        .submit(Origin::Signed(1), h, H256::repeat_byte(2), 0x1 | 0x2, H256::repeat_byte(3), 100)
        .is_ok());
    assert!(p.attestation(&h).is_some());
    assert!(p.revoke(Origin::Signed(1), h).is_err());
    assert!(p.revoke(Origin::Root, h).is_ok());
    assert!(p.attestation(&h).unwrap().revoked);
}

#[test]
fn crl_lookup_works() {
    let mut p = Pallet::new();
    let target = H256::repeat_byte(9);
    assert!(!p.is_revoked(CrlKind::FirmwareHash, target));
    assert!(p.add_to_crl(Origin::Signed(1), CrlKind::FirmwareHash, target, 1).is_err());
    assert!(p.add_to_crl(Origin::Root, CrlKind::FirmwareHash, target, 1).is_ok());
    assert!(p.is_revoked(CrlKind::FirmwareHash, target));
}
