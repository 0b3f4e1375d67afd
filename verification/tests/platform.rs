use ring_back_tone::address::{derive_platform_address, derive_artist_address, Address};
use ring_back_tone::errors::Errors;
use ring_back_tone::handlers::{setup_platform, sign_up_music_artist, sign_up_music_fan};
use ring_back_tone::identity::Identity;
use ring_back_tone::records::Record;
use ring_back_tone::store::EntityStore;

fn operator_count(store: &EntityStore) -> u8 {
    match store.get(&derive_platform_address()) {
        Some(Record::Operator(o)) => o.ring_back_tones_count,
        _ => panic!("platform record missing"),
    }
}

#[test]
fn setup_twice_fails_and_count_starts_at_zero() {
    let mut store = EntityStore::new();
    let operator = Identity::new(7);
    assert_eq!(setup_platform(&mut store, operator), Ok(()));
    assert_eq!(operator_count(&store), 0);
    match store.get(&derive_platform_address()) {
        Some(Record::Operator(o)) => assert_eq!(o.signer, operator),
        _ => panic!("platform record missing"),
    }
    assert_eq!(setup_platform(&mut store, operator), Err(Errors::AccountAlreadyExists));
    assert_eq!(
        setup_platform(&mut store, Identity::new(8)),
        Err(Errors::AccountAlreadyExists)
    );
    assert_eq!(operator_count(&store), 0);
}

#[test]
fn artist_name_one_over_cap_fails_exactly_at_cap_succeeds() {
    let mut store = EntityStore::new();
    let caller = Identity::new(1);
    let long_name = vec![b'a'; 21];
    assert_eq!(
        sign_up_music_artist(&mut store, caller, long_name, b"https://example.test".to_vec()),
        Err(Errors::ExceededNameMaxLength)
    );
    let exact_name = vec![b'a'; 20];
    assert_eq!(
        sign_up_music_artist(&mut store, caller, exact_name.clone(), b"https://example.test".to_vec()),
        Ok(())
    );
    match store.get(&derive_artist_address(caller)) {
        Some(Record::Artist(a)) => {
            assert_eq!(a.artist_wallet_address, caller);
            assert_eq!(a.artist_name, exact_name);
            assert_eq!(a.artist_profile_url, b"https://example.test".to_vec());
            assert_eq!(a.ring_back_tones.len(), 0);
            assert_eq!(a.subscribers.len(), 0);
            assert_eq!(a.subscriptions_count, 0);
            assert_eq!(a.amount_paid, 0);
        },
        _ => panic!("artist record missing"),
    }
}

#[test]
fn fan_name_one_over_cap_fails_exactly_at_cap_succeeds() {
    let mut store = EntityStore::new();
    let caller = Identity::new(2);
    assert_eq!(
        sign_up_music_fan(&mut store, caller, vec![b'f'; 21], b"u".to_vec()),
        Err(Errors::ExceededNameMaxLength)
    );
    assert_eq!(
        sign_up_music_fan(&mut store, caller, vec![b'f'; 20], b"u".to_vec()),
        Ok(())
    );
}

#[test]
fn empty_name_or_url_fails_regardless_of_other_field() {
    let mut store = EntityStore::new();
    let caller = Identity::new(3);
    assert_eq!(
        sign_up_music_artist(&mut store, caller, Vec::new(), b"https://ok".to_vec()),
        Err(Errors::CannotSignUpUser)
    );
    assert_eq!(
        sign_up_music_artist(&mut store, caller, b"name".to_vec(), Vec::new()),
        Err(Errors::CannotSignUpUser)
    );
    // The empty check wins even when the other field is over its cap.
    assert_eq!(
        sign_up_music_artist(&mut store, caller, Vec::new(), vec![b'u'; 300]),
        Err(Errors::CannotSignUpUser)
    );
    assert_eq!(
        sign_up_music_artist(&mut store, caller, vec![b'n'; 30], Vec::new()),
        Err(Errors::CannotSignUpUser)
    );
    // Whitespace-only counts as empty.
    assert_eq!(
        sign_up_music_artist(&mut store, caller, b"  \t\n".to_vec(), b"https://ok".to_vec()),
        Err(Errors::CannotSignUpUser)
    );
    assert_eq!(
        sign_up_music_fan(&mut store, caller, Vec::new(), b"https://ok".to_vec()),
        Err(Errors::CannotSignUpUser)
    );
    assert_eq!(
        sign_up_music_fan(&mut store, caller, b"name".to_vec(), b" ".to_vec()),
        Err(Errors::CannotSignUpUser)
    );
    assert!(store.get(&derive_artist_address(caller)).is_none());
}

#[test]
fn url_one_over_cap_fails_exactly_at_cap_succeeds() {
    let mut store = EntityStore::new();
    assert_eq!(
        sign_up_music_artist(&mut store, Identity::new(4), b"n".to_vec(), vec![b'u'; 256]),
        Err(Errors::ExceededUserUrlMaxLength)
    );
    assert_eq!(
        sign_up_music_artist(&mut store, Identity::new(4), b"n".to_vec(), vec![b'u'; 255]),
        Ok(())
    );
    assert_eq!(
        sign_up_music_fan(&mut store, Identity::new(5), b"n".to_vec(), vec![b'u'; 256]),
        Err(Errors::ExceededUserUrlMaxLength)
    );
}

#[test]
fn duplicate_sign_up_fails() {
    let mut store = EntityStore::new();
    let caller = Identity::new(6);
    assert_eq!(
        sign_up_music_artist(&mut store, caller, b"a".to_vec(), b"u".to_vec()),
        Ok(())
    );
    assert_eq!(
        sign_up_music_artist(&mut store, caller, b"b".to_vec(), b"v".to_vec()),
        Err(Errors::AccountAlreadyExists)
    );
    // The same identity may still hold a fan profile: the namespaces differ.
    assert_eq!(
        sign_up_music_fan(&mut store, caller, b"a".to_vec(), b"u".to_vec()),
        Ok(())
    );
    assert_eq!(
        sign_up_music_fan(&mut store, caller, b"b".to_vec(), b"v".to_vec()),
        Err(Errors::AccountAlreadyExists)
    );
}

#[test]
fn fan_record_starts_with_empty_tone_slot() {
    let mut store = EntityStore::new();
    let caller = Identity::new(9);
    assert_eq!(
        sign_up_music_fan(&mut store, caller, b"fan".to_vec(), b"url".to_vec()),
        Ok(())
    );
    match store.get(&ring_back_tone::address::derive_fan_address(caller)) {
        Some(Record::Fan(f)) => {
            assert_eq!(f.user_wallet_address, caller);
            assert_eq!(f.user_name, b"fan".to_vec());
            assert_eq!(f.user_profile_url, b"url".to_vec());
            assert_eq!(f.ring_back_tone, None::<Address>);
        },
        _ => panic!("fan record missing"),
    }
}
