use num_bigint::BigUint;
use oracle_node::events::{FieldElement, SpotEntryEvent};
use oracle_node::processor::process_batch;
use oracle_node::signing::SigningService;
use oracle_node::storage::SpotEntryStorage;
use secp256k1::hashes::Hash as _;
use secp256k1::Secp256k1;

fn obs(timestamp: u64, price: u128) -> SpotEntryEvent {
    SpotEntryEvent { timestamp, price, pair_id: FieldElement { hi: 0, lo: 0 } }
}

fn some_secret_key() -> secp256k1::SecretKey {
    secp256k1::SecretKey::from_byte_array([1u8; 32]).unwrap()
}

#[test]
fn twap_two_observations_exact() {
    let mut storage = SpotEntryStorage::new();
    storage.append(obs(0, 100));
    storage.append(obs(10, 200));
    storage.calculate_and_sign_twap(some_secret_key());

    // weighted_sum = 200 * 10 = 2000, total_gap = 10,
    // result = (2000 << 64) / 10 = 200 << 64.
    let expected = BigUint::from(200_u32) << 64;
    assert_eq!(storage.twap.clone().unwrap(), expected);
    assert!(storage.signature.is_some());
}

#[test]
fn twap_three_observations_exact() {
    let mut storage = SpotEntryStorage::new();
    storage.append(obs(0, 100));
    storage.append(obs(10, 100));
    storage.append(obs(30, 300));
    storage.calculate_and_sign_twap(some_secret_key());

    // weighted_sum = 100 * 10 + 300 * 20 = 7000, total_gap = 30,
    // result = (7000 << 64) / 30.
    let expected = (BigUint::from(7000_u32) << 64) / BigUint::from(30_u32);
    assert_eq!(storage.twap.clone().unwrap(), expected);
}

#[test]
fn recompute_with_one_observation_keeps_cached_pair() {
    let mut storage = SpotEntryStorage::new();
    storage.append(obs(0, 100));
    storage.append(obs(10, 200));
    storage.calculate_and_sign_twap(some_secret_key());
    let cached_twap = storage.twap.clone();
    let cached_signature = storage.signature.clone();
    assert!(cached_twap.is_some());

    // Evict everything but the newest observation, then recompute: with one
    // survivor the cached pair must stay exactly as it was.
    storage.clean_older_than(9);
    assert_eq!(storage.len(), 1);
    assert_eq!(storage.twap, cached_twap);
    assert_eq!(storage.signature, cached_signature);
    storage.calculate_and_sign_twap(some_secret_key());
    assert_eq!(storage.twap, cached_twap);
    assert_eq!(storage.signature, cached_signature);
}

#[test]
fn signature_verifies_against_public_key() {
    let service = SigningService::from_secret_bytes(&[1u8; 32]).unwrap();
    let mut storage = SpotEntryStorage::new();
    storage.append(obs(0, 100));
    storage.append(obs(10, 200));
    storage.calculate_and_sign_twap(*service.secret_key());

    let twap_bytes = storage.twap.clone().unwrap().to_bytes_be();
    let digest = secp256k1::hashes::sha256::Hash::hash(&twap_bytes).to_byte_array();
    let message = secp256k1::Message::from_digest(digest);

    let sig_bytes = storage.signature.clone().unwrap();
    let signature = secp256k1::ecdsa::Signature::from_compact(&sig_bytes).unwrap();

    let pk_bytes: [u8; 33] = service.public_key_bytes().try_into().unwrap();
    let public_key = secp256k1::PublicKey::from_byte_array_compressed(pk_bytes).unwrap();

    let secp = Secp256k1::new();
    assert!(secp.verify_ecdsa(message, &signature, &public_key).is_ok());

    // The signature is bound to this aggregate: a different digest must not
    // verify.
    let other = secp256k1::hashes::sha256::Hash::hash(b"something else").to_byte_array();
    let other_message = secp256k1::Message::from_digest(other);
    assert!(secp.verify_ecdsa(other_message, &signature, &public_key).is_err());
}

#[test]
fn process_batch_applies_evicts_and_recomputes() {
    let mut storage = SpotEntryStorage::new();
    storage.append(obs(5, 50));
    let batch = vec![obs(10, 100), obs(30, 300), obs(3, 1)];
    process_batch(&mut storage, &batch, 5, some_secret_key());

    // Timestamps 3 and 5 fall at or below the cutoff; the survivors
    // (10, 100) and (30, 300) give (300 * 20 << 64) / 20 = 300 << 64.
    assert_eq!(storage.len(), 2);
    let expected = BigUint::from(300_u32) << 64;
    assert_eq!(storage.twap.clone().unwrap(), expected);
    assert!(storage.signature.is_some());
}

#[test]
fn read_latest_snapshots_the_published_pair() {
    let mut storage = SpotEntryStorage::new();
    assert_eq!(storage.read_latest(), None);

    storage.append(obs(0, 100));
    storage.calculate_and_sign_twap(some_secret_key());
    // One observation: nothing published yet.
    assert_eq!(storage.read_latest(), None);

    storage.append(obs(10, 200));
    storage.calculate_and_sign_twap(some_secret_key());
    let (twap_bytes, signature_bytes) = storage.read_latest().unwrap();
    assert_eq!(twap_bytes, storage.twap.clone().unwrap().to_bytes_be());
    assert_eq!(Some(signature_bytes), storage.signature);
}

#[test]
fn self_check_accepts_matching_pair() {
    let service = SigningService::generate();
    assert!(service.self_check());

    let derived = SigningService::from_secret_bytes(&[7u8; 32]).unwrap();
    assert!(derived.self_check());
}

#[test]
fn self_check_rejects_mismatched_pair() {
    let secp = Secp256k1::new();
    let other_secret = secp256k1::SecretKey::from_byte_array([2u8; 32]).unwrap();
    let other_public = secp256k1::PublicKey::from_secret_key(&secp, &other_secret);

    let service =
        SigningService::from_key_material(&[1u8; 32], &other_public.serialize()).unwrap();
    assert!(!service.self_check());
}

#[test]
fn key_material_round_trips() {
    let secp = Secp256k1::new();
    let secret = secp256k1::SecretKey::from_byte_array([9u8; 32]).unwrap();
    let public = secp256k1::PublicKey::from_secret_key(&secp, &secret);

    let service = SigningService::from_key_material(&[9u8; 32], &public.serialize()).unwrap();
    assert_eq!(service.public_key_bytes(), public.serialize().to_vec());
    assert!(service.self_check());

    // Bytes that are no valid scalar are rejected.
    assert!(SigningService::from_secret_bytes(&[0u8; 32]).is_none());
}
