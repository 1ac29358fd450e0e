use std::time::{Duration, SystemTime};

use num_bigint::BigUint;
use oracle_node::events::{FieldElement, SpotEntryEvent};
use oracle_node::storage::SpotEntryStorage;
use rand::RngExt;
use secp256k1::Secp256k1;

fn event_factory(timestamp: u64, price: u128) -> SpotEntryEvent {
    SpotEntryEvent { timestamp, price, pair_id: FieldElement { hi: 0, lo: 0 } }
}

#[test]
fn storage_ields_initialization() {
    let mut storage = SpotEntryStorage::new();
    let secp = Secp256k1::new();
    let (secret_key, _) = secp.generate_keypair(&mut secp256k1::rand::rng());

    assert_eq!(storage.signature, None);
    assert_eq!(storage.twap, None);
    assert_eq!(storage.len(), 0);

    storage.calculate_and_sign_twap(secret_key);

    assert_eq!(storage.signature, None);
    assert_eq!(storage.twap, None);
    assert_eq!(storage.len(), 0);
}

#[test]
fn simple_event_addition() {
    let mut storage = SpotEntryStorage::new();

    for i in 0..10000 {
        let ts = SystemTime::now()
            .checked_sub(Duration::from_secs(i))
            .unwrap()
            .duration_since(SystemTime::UNIX_EPOCH)
            .unwrap();

        let event = event_factory(ts.as_secs(), 100_u64.into());

        storage.append(event);
    }

    assert_eq!(storage.len(), 10000);
}

#[test]
fn event_cleaning() {
    let mut storage = SpotEntryStorage::new();

    for i in 0..10000 {
        let ts = SystemTime::now()
            .checked_sub(Duration::from_secs(i))
            .unwrap()
            .duration_since(SystemTime::UNIX_EPOCH)
            .unwrap();

        let event = event_factory(ts.as_secs(), 100_u64.into());

        storage.append(event);
    }

    assert_eq!(storage.len(), 10000);

    let hour_ago = SystemTime::now()
        .checked_sub(Duration::from_secs(3600))
        .unwrap()
        .duration_since(SystemTime::UNIX_EPOCH)
        .unwrap();

    storage.clean_older_than(hour_ago.as_secs());

    assert_eq!(storage.len(), 3600);
}

#[test]
fn events_on_same_ts_overwrite_each_other() {
    let mut storage = SpotEntryStorage::new();

    for _ in 0..3 {
        for i in 0..100 {
            let ts = SystemTime::now()
                .checked_sub(Duration::from_secs(i))
                .unwrap()
                .duration_since(SystemTime::UNIX_EPOCH)
                .unwrap();

            let event = event_factory(ts.as_secs(), 100_u64.into());

            storage.append(event);
        }
    }

    assert_eq!(storage.len(), 100);
}

#[test]
fn test_naive_twap_calculation() {
    let mut storage = SpotEntryStorage::new();

    for i in 0..100 {
        let ts = SystemTime::now()
            .checked_sub(Duration::from_secs(i))
            .unwrap()
            .duration_since(SystemTime::UNIX_EPOCH)
            .unwrap();

        let event = event_factory(ts.as_secs(), 100_u128);

        storage.append(event);
    }

    assert_eq!(storage.len(), 100);

    let secp = Secp256k1::new();
    let (secret_key, _) = secp.generate_keypair(&mut secp256k1::rand::rng());
    storage.calculate_and_sign_twap(secret_key);

    assert!(storage.twap.is_some());
    assert_eq!(storage.twap.unwrap() >> 64, BigUint::from(100_u64));
}

#[test]
fn test_complex_twap_calculation() {
    let mut storage = SpotEntryStorage::new();

    let mut ts = SystemTime::now()
        .checked_sub(Duration::from_secs(3600))
        .unwrap()
        .duration_since(SystemTime::UNIX_EPOCH)
        .unwrap();

    let event = event_factory(ts.as_secs(), 100_u64.into());
    storage.append(event);

    let mut rng = rand::rng();

    let mut numenator_aggregate = 0_u128;
    let mut divisor_aggregate = 0_u128;

    for _ in 0..99 {
        let timedelta = rng.random::<u8>() / 2 + 10;
        ts = ts.checked_add(Duration::from_secs(timedelta.into())).unwrap();

        let price: u32 = rng.random::<u32>();
        let event = event_factory(ts.as_secs(), price.into());

        storage.append(event);
        numenator_aggregate += u128::from(timedelta) * u128::from(price);
        divisor_aggregate += u128::from(timedelta);
    }

    let twap = numenator_aggregate / divisor_aggregate;

    assert_eq!(storage.len(), 100);

    let secp = Secp256k1::new();
    let (secret_key, _) = secp.generate_keypair(&mut secp256k1::rand::rng());
    storage.calculate_and_sign_twap(secret_key);

    assert!(storage.twap.is_some());
    assert_eq!(storage.twap.unwrap() >> 64, BigUint::from(twap));
}
