use ring_back_tone::address::{derive_artist_address, derive_tone_address};
use ring_back_tone::errors::Errors;
use ring_back_tone::handlers::{
    setup_platform, sign_up_music_artist, subscribe_ring_back_tone, upload_ring_back_tone,
    Transfer,
};
use ring_back_tone::identity::Identity;
use ring_back_tone::records::Record;
use ring_back_tone::store::EntityStore;

/// A platform with one artist who uploaded one tone priced at `price`.
fn platform_with_tone(artist: Identity, price: u64) -> EntityStore {
    let mut store = EntityStore::new();
    assert_eq!(setup_platform(&mut store, Identity::new(1000)), Ok(()));
    assert_eq!(
        sign_up_music_artist(&mut store, artist, b"artist".to_vec(), b"url".to_vec()),
        Ok(())
    );
    assert_eq!(
        upload_ring_back_tone(
            &mut store, artist, b"song".to_vec(), 1, b"https://t".to_vec(), price,
            b"30d".to_vec(), 1700,
        ),
        Ok(())
    );
    store
}

#[test]
fn amount_equal_to_price_is_rejected() {
    // The platform literally rejects a payment that equals the price.
    let artist = Identity::new(1);
    let mut store = platform_with_tone(artist, 100);
    assert_eq!(
        subscribe_ring_back_tone(&mut store, Identity::new(2), derive_tone_address(0), 100),
        Err(Errors::ExceededTargetAmount)
    );
    match store.get(&derive_artist_address(artist)) {
        Some(Record::Artist(a)) => assert_eq!(a.subscriptions_count, 0),
        _ => panic!("artist record missing"),
    }
}

#[test]
fn second_subscription_by_same_fan_fails_and_accumulates_once() {
    let artist = Identity::new(1);
    let fan = Identity::new(2);
    let mut store = platform_with_tone(artist, 100);
    let tone = derive_tone_address(0);
    assert_eq!(
        subscribe_ring_back_tone(&mut store, fan, tone, 50),
        Ok(Transfer { from: fan, to: tone, amount: 50 })
    );
    assert_eq!(
        subscribe_ring_back_tone(&mut store, fan, tone, 60),
        Err(Errors::UserSubscribedAudio)
    );
    match store.get(&derive_artist_address(artist)) {
        Some(Record::Artist(a)) => {
            assert_eq!(a.subscribers, vec![fan]);
            assert_eq!(a.subscriptions_count, 1);
            assert_eq!(a.amount_paid, 50);
        },
        _ => panic!("artist record missing"),
    }
    match store.get(&tone) {
        Some(Record::Tone(t)) => assert_eq!(t.amount_donated, 50),
        _ => panic!("tone record missing"),
    }
}

#[test]
fn amount_zero_is_rejected() {
    let artist = Identity::new(1);
    let mut store = platform_with_tone(artist, 100);
    assert_eq!(
        subscribe_ring_back_tone(&mut store, Identity::new(2), derive_tone_address(0), 0),
        Err(Errors::AmountNotgreaterThanZero)
    );
}

#[test]
fn missing_tone_is_rejected() {
    let artist = Identity::new(1);
    let mut store = platform_with_tone(artist, 100);
    assert_eq!(
        subscribe_ring_back_tone(&mut store, Identity::new(2), derive_tone_address(3), 50),
        Err(Errors::AccountNotFound)
    );
    // An address that holds no tone record is no subscription target either.
    assert_eq!(
        subscribe_ring_back_tone(&mut store, Identity::new(2), derive_artist_address(artist), 50),
        Err(Errors::AccountNotFound)
    );
}

#[test]
fn subscriber_set_is_capped() {
    let artist = Identity::new(1);
    let mut store = platform_with_tone(artist, 100);
    let tone = derive_tone_address(0);
    for k in 0..5u64 {
        assert!(subscribe_ring_back_tone(&mut store, Identity::new(10 + k), tone, 50).is_ok());
    }
    assert_eq!(
        subscribe_ring_back_tone(&mut store, Identity::new(20), tone, 50),
        Err(Errors::CollectionFull)
    );
    match store.get(&derive_artist_address(artist)) {
        Some(Record::Artist(a)) => {
            assert_eq!(a.subscriptions_count, 5);
            assert_eq!(a.amount_paid, 250);
        },
        _ => panic!("artist record missing"),
    }
}

#[test]
fn accumulator_overflow_is_rejected() {
    let artist = Identity::new(1);
    let mut store = platform_with_tone(artist, 5);
    let tone = derive_tone_address(0);
    assert!(subscribe_ring_back_tone(&mut store, Identity::new(2), tone, u64::MAX - 1).is_ok());
    assert_eq!(
        subscribe_ring_back_tone(&mut store, Identity::new(3), tone, 3),
        Err(Errors::NumericOverflow)
    );
    match store.get(&derive_artist_address(artist)) {
        Some(Record::Artist(a)) => {
            assert_eq!(a.subscriptions_count, 1);
            assert_eq!(a.amount_paid, u64::MAX - 1);
        },
        _ => panic!("artist record missing"),
    }
}
