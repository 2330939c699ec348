use pallet_suite::model_registry::{Error, Pallet};
use pallet_suite::primitives::{Origin, H256};

#[test]
fn register_base_model_works() {
    let mut p = Pallet::new();
    let id = H256::repeat_byte(1);
    let manifest = H256::repeat_byte(2);
    assert!(p.register_base_model(Origin::Signed(1), id, manifest, 1).is_ok());
    assert!(p.base_model(&id).is_some());
}

#[test]
fn duplicate_registration_fails() {
    let mut p = Pallet::new();
    let id = H256::repeat_byte(3);
    let manifest = H256::repeat_byte(4);
    assert!(p.register_base_model(Origin::Signed(1), id, manifest, 1).is_ok());
    assert_eq!(p.register_base_model(Origin::Signed(1), id, manifest, 1), Err(Error::AlreadyRegistered));
}

#[test]
fn register_adapter_against_unknown_fails() {
    let mut p = Pallet::new();
    let aid = H256::repeat_byte(5);
    let bid = H256::repeat_byte(6);
    assert_eq!(
        p.register_adapter(Origin::Signed(1), aid, bid, H256::repeat_byte(7), 1),
        Err(Error::UnknownModel)
    );
    assert!(p.adapter(&aid).is_none());
}

#[test]
fn id_collision_between_base_and_adapter_rejected() {
    let mut p = Pallet::new();
    let id = H256::repeat_byte(8);
    assert!(p.register_base_model(Origin::Signed(1), id, H256::repeat_byte(9), 1).is_ok());
    let bid = H256::repeat_byte(10);
    assert!(p.register_base_model(Origin::Signed(2), bid, H256::repeat_byte(11), 1).is_ok());
    assert_eq!(
        p.register_adapter(Origin::Signed(3), id, bid, H256::repeat_byte(12), 1),
        Err(Error::IdCollision)
    );
}
