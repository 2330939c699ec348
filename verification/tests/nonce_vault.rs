use pallet_suite::nonce_vault::{Error, Pallet, PRUNE_BATCH_PER_BLOCK, PRUNE_SCAN_LIMIT_PER_BLOCK};
use pallet_suite::primitives::{Origin, RuntimeDbWeight, H256};

#[test]
fn first_use_succeeds_replay_fails() {
    let mut p = Pallet::new();
    let n = H256::repeat_byte(1);
    assert!(p.record_nonce(Origin::Signed(1), n, 1).is_err());
    assert!(p.record_nonce(Origin::Root, n, 1).is_ok());
    assert!(!p.check_nonce(n, 1));
    assert_eq!(p.record_nonce(Origin::Root, n, 1), Err(Error::Replay));
}

#[test]
fn unseen_nonce_passes_check() {
    let p = Pallet::new();
    assert!(p.check_nonce(H256::repeat_byte(9), 1));
}

#[test]
fn prune_scan_is_bounded_even_when_entries_are_expired() {
    let mut p = Pallet::new();
    for i in 0..(PRUNE_SCAN_LIMIT_PER_BLOCK + 10) {
        p.nonces.insert(H256::from_low_u64_be(i as u64), 1);
    }
    let _ = p.on_initialize(20_000, RuntimeDbWeight { read: 0, write: 0 });
    let remaining = p.nonces.len() as u32;
    assert_eq!(remaining, PRUNE_SCAN_LIMIT_PER_BLOCK + 10 - PRUNE_BATCH_PER_BLOCK);
}

#[test]
fn nonce_stays_refused_through_pruning_until_its_window_ends() {
    let mut p = Pallet::new();
    let n = H256::repeat_byte(3);
    assert!(p.record_nonce(Origin::Root, n, 100).is_ok());
    let (_, event) = p.on_initialize(10_000, RuntimeDbWeight { read: 1, write: 1 });
    assert!(event.is_none());
    let _ = p.on_initialize(14_499, RuntimeDbWeight { read: 1, write: 1 });
    assert_eq!(p.record_nonce(Origin::Root, n, 14_499), Err(Error::Replay));
    assert!(p.check_nonce(n, 14_500));
    assert!(p.record_nonce(Origin::Root, n, 14_500).is_ok());
}

fn storage_key(n: &H256) -> Vec<u8> {
    let mut bytes = Vec::new();
    for w in [n.w0, n.w1, n.w2, n.w3] {
        bytes.extend_from_slice(&w.to_be_bytes());
    }
    let mut key = sp_crypto_hashing::blake2_128(&bytes).to_vec();
    key.extend_from_slice(&bytes);
    key
}

#[test]
fn pruning_walks_nonces_in_storage_key_order() {
    let mut p = Pallet::new();
    let nonces: Vec<H256> = (0..100u64).map(H256::from_low_u64_be).collect();
    for n in &nonces {
        p.nonces.insert(*n, 1);
    }
    let mut ordered = nonces.clone();
    ordered.sort_by_key(storage_key);
    let (_, event) = p.on_initialize(20_000, RuntimeDbWeight { read: 1, write: 1 });
    assert_eq!(event, Some(pallet_suite::nonce_vault::Event::NoncesPruned { count: PRUNE_BATCH_PER_BLOCK }));
    for (i, n) in ordered.iter().enumerate() {
        assert_eq!(p.check_nonce(*n, 1), (i as u32) < PRUNE_BATCH_PER_BLOCK, "nonce {i} in storage order");
    }
}
