use ring_back_tone::address::{derive_artist_address, derive_platform_address, derive_tone_address, Address};
use ring_back_tone::errors::Errors;
use ring_back_tone::handlers::{setup_platform, sign_up_music_artist, upload_ring_back_tone};
use ring_back_tone::identity::Identity;
use ring_back_tone::records::{MobileNetworkOperatorAccount, MusicArtistAccount, Record};
use ring_back_tone::store::EntityStore;

fn platform_with_artist(caller: Identity) -> EntityStore {
    let mut store = EntityStore::new();
    assert_eq!(setup_platform(&mut store, Identity::new(1000)), Ok(()));
    assert_eq!(
        sign_up_music_artist(&mut store, caller, b"artist".to_vec(), b"https://a".to_vec()),
        Ok(())
    );
    store
}

fn operator_count(store: &EntityStore) -> u8 {
    match store.get(&derive_platform_address()) {
        Some(Record::Operator(o)) => o.ring_back_tones_count,
        _ => panic!("platform record missing"),
    }
}

#[test]
fn audio_code_zero_fails_one_succeeds_and_increments_count() {
    let caller = Identity::new(1);
    let mut store = platform_with_artist(caller);
    assert_eq!(operator_count(&store), 0);
    assert_eq!(
        upload_ring_back_tone(
            &mut store, caller, b"song".to_vec(), 0, b"https://t".to_vec(), 10,
            b"30d".to_vec(), 1700,
        ),
        Err(Errors::InvalidAudioCode)
    );
    assert_eq!(operator_count(&store), 0);
    assert_eq!(
        upload_ring_back_tone(
            &mut store, caller, b"song".to_vec(), 1, b"https://t".to_vec(), 10,
            b"30d".to_vec(), 1700,
        ),
        Ok(())
    );
    assert_eq!(operator_count(&store), 1);
    match store.get(&derive_tone_address(0)) {
        Some(Record::Tone(t)) => {
            assert_eq!(t.signer, caller);
            assert_eq!(t.music_audio_name, b"song".to_vec());
            assert_eq!(t.music_audio_code, 1);
            assert_eq!(t.music_audio_url, b"https://t".to_vec());
            assert_eq!(t.subscription_amount, 10);
            assert_eq!(t.subscription_duration, b"30d".to_vec());
            assert_eq!(t.creator_time, 1700);
            assert_eq!(t.amount_donated, 0);
        },
        _ => panic!("tone record missing"),
    }
}

#[test]
fn two_uploads_give_distinct_addresses_and_entries() {
    let caller = Identity::new(2);
    let mut store = platform_with_artist(caller);
    assert_eq!(
        upload_ring_back_tone(
            &mut store, caller, b"one".to_vec(), 1, b"u1".to_vec(), 5, b"7d".to_vec(), 1,
        ),
        Ok(())
    );
    assert_eq!(
        upload_ring_back_tone(
            &mut store, caller, b"two".to_vec(), 2, b"u2".to_vec(), 6, b"7d".to_vec(), 2,
        ),
        Ok(())
    );
    let a0 = derive_tone_address(0);
    let a1 = derive_tone_address(1);
    assert_ne!(a0, a1);
    // Deriving again from the same sequence number gives the same address.
    assert_eq!(a0, derive_tone_address(0));
    match store.get(&derive_artist_address(caller)) {
        Some(Record::Artist(a)) => {
            assert_eq!(a.ring_back_tones, vec![a0, a1]);
            assert_ne!(a.ring_back_tones[0], a.ring_back_tones[1]);
        },
        _ => panic!("artist record missing"),
    }
}

#[test]
fn upload_text_and_amount_validation() {
    let caller = Identity::new(3);
    let mut store = platform_with_artist(caller);
    let base_url = b"https://t".to_vec();
    assert_eq!(
        upload_ring_back_tone(&mut store, caller, Vec::new(), 1, base_url.clone(), 10, b"d".to_vec(), 0),
        Err(Errors::CannotUploadAudio)
    );
    assert_eq!(
        upload_ring_back_tone(&mut store, caller, b" \t".to_vec(), 1, base_url.clone(), 10, b"d".to_vec(), 0),
        Err(Errors::CannotUploadAudio)
    );
    assert_eq!(
        upload_ring_back_tone(&mut store, caller, b"s".to_vec(), 1, Vec::new(), 10, b"d".to_vec(), 0),
        Err(Errors::CannotUploadAudio)
    );
    assert_eq!(
        upload_ring_back_tone(&mut store, caller, b"s".to_vec(), 1, base_url.clone(), 10, Vec::new(), 0),
        Err(Errors::CannotUploadAudio)
    );
    assert_eq!(
        upload_ring_back_tone(&mut store, caller, vec![b's'; 21], 1, base_url.clone(), 10, b"d".to_vec(), 0),
        Err(Errors::ExceededAudioMaxLength)
    );
    assert_eq!(
        upload_ring_back_tone(&mut store, caller, b"s".to_vec(), 1, vec![b'u'; 256], 10, b"d".to_vec(), 0),
        Err(Errors::ExceededAudioUrlMaxLength)
    );
    assert_eq!(
        upload_ring_back_tone(&mut store, caller, b"s".to_vec(), 1, base_url.clone(), 10, vec![b'd'; 11], 0),
        Err(Errors::ExceededSubscriptionDurationMaxLength)
    );
    assert_eq!(
        upload_ring_back_tone(&mut store, caller, b"s".to_vec(), 1, base_url.clone(), 0, b"d".to_vec(), 0),
        Err(Errors::AmountNotgreaterThanZero)
    );
    // Nothing was uploaded by any of the rejected calls.
    assert_eq!(operator_count(&store), 0);
}

#[test]
fn upload_needs_platform_and_artist_profile() {
    let caller = Identity::new(4);
    let mut store = EntityStore::new();
    assert_eq!(
        upload_ring_back_tone(&mut store, caller, b"s".to_vec(), 1, b"u".to_vec(), 10, b"d".to_vec(), 0),
        Err(Errors::PlatformNotInitialized)
    );
    assert_eq!(setup_platform(&mut store, Identity::new(1000)), Ok(()));
    assert_eq!(
        upload_ring_back_tone(&mut store, caller, b"s".to_vec(), 1, b"u".to_vec(), 10, b"d".to_vec(), 0),
        Err(Errors::AccountNotFound)
    );
}

#[test]
fn owned_tone_list_is_capped() {
    let caller = Identity::new(5);
    let mut store = platform_with_artist(caller);
    for k in 0..5u8 {
        assert_eq!(
            upload_ring_back_tone(
                &mut store, caller, vec![b'a' + k], 1, b"u".to_vec(), 10, b"d".to_vec(), 0,
            ),
            Ok(())
        );
    }
    assert_eq!(
        upload_ring_back_tone(&mut store, caller, b"f".to_vec(), 1, b"u".to_vec(), 10, b"d".to_vec(), 0),
        Err(Errors::CollectionFull)
    );
    assert_eq!(operator_count(&store), 5);
}

#[test]
fn duplicate_tone_reference_is_rejected() {
    // A profile that already references the address the next tone would get
    // trips the duplicate-reference guard before anything is mutated.
    let caller = Identity::new(6);
    let mut store = EntityStore::new();
    store
        .create(
            derive_platform_address(),
            Record::Operator(MobileNetworkOperatorAccount {
                signer: Identity::new(1000),
                ring_back_tones_count: 0,
            }),
        )
        .unwrap();
    store
        .create(
            derive_artist_address(caller),
            Record::Artist(MusicArtistAccount {
                artist_wallet_address: caller,
                artist_name: b"artist".to_vec(),
                artist_profile_url: b"url".to_vec(),
                ring_back_tones: vec![Address::Tone(0)],
                subscribers: Vec::new(),
                subscriptions_count: 0,
                amount_paid: 0,
            }),
        )
        .unwrap();
    assert_eq!(
        upload_ring_back_tone(&mut store, caller, b"s".to_vec(), 1, b"u".to_vec(), 10, b"d".to_vec(), 0),
        Err(Errors::CannotAddRingbackTone)
    );
    assert_eq!(operator_count(&store), 0);
}

#[test]
fn tone_counter_cannot_overflow() {
    // 51 artists with five tones each exhaust the one-byte tone counter.
    let mut store = EntityStore::new();
    assert_eq!(setup_platform(&mut store, Identity::new(1000)), Ok(()));
    for a in 0..51u64 {
        let artist = Identity::new(a);
        assert_eq!(
            sign_up_music_artist(&mut store, artist, b"artist".to_vec(), b"url".to_vec()),
            Ok(())
        );
        for _ in 0..5 {
            assert_eq!(
                upload_ring_back_tone(
                    &mut store, artist, b"s".to_vec(), 1, b"u".to_vec(), 10, b"d".to_vec(), 0,
                ),
                Ok(())
            );
        }
    }
    assert_eq!(operator_count(&store), 255);
    let last = Identity::new(60);
    assert_eq!(
        sign_up_music_artist(&mut store, last, b"artist".to_vec(), b"url".to_vec()),
        Ok(())
    );
    assert_eq!(
        upload_ring_back_tone(&mut store, last, b"s".to_vec(), 1, b"u".to_vec(), 10, b"d".to_vec(), 0),
        Err(Errors::NumericOverflow)
    );
    assert_eq!(operator_count(&store), 255);
}
