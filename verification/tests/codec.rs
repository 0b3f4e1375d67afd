use ring_back_tone::address::Address;
use ring_back_tone::codec::{
    decode_record, encode_record, ARTIST_RECORD_SPACE, FAN_RECORD_SPACE, OPERATOR_RECORD_SPACE,
    TONE_RECORD_SPACE,
};
use ring_back_tone::identity::Identity;
use ring_back_tone::records::{
    MobileNetworkOperatorAccount, MusicArtistAccount, MusicFanAccount, Record,
    RingBackToneAccount,
};

fn round_trip(rec: Record) -> Record {
    let bytes = encode_record(&rec);
    decode_record(&bytes).expect("an encoded record must decode")
}

#[test]
fn operator_record_has_exact_layout() {
    let rec = Record::Operator(MobileNetworkOperatorAccount {
        signer: Identity::new(0x0102030405060708),
        ring_back_tones_count: 9,
    });
    let bytes = encode_record(&rec);
    // Discriminator, the identity little-endian, then the count.
    assert_eq!(bytes, vec![1, 8, 7, 6, 5, 4, 3, 2, 1, 9]);
}

#[test]
fn operator_round_trips() {
    match round_trip(Record::Operator(MobileNetworkOperatorAccount {
        signer: Identity::new(u64::MAX),
        ring_back_tones_count: 255,
    })) {
        Record::Operator(o) => {
            assert_eq!(o.signer, Identity::new(u64::MAX));
            assert_eq!(o.ring_back_tones_count, 255);
        },
        _ => panic!("wrong record kind"),
    }
}

#[test]
fn artist_round_trips_at_maximum_lengths() {
    let rec = Record::Artist(MusicArtistAccount {
        artist_wallet_address: Identity::new(42),
        artist_name: vec![b'n'; 20],
        artist_profile_url: vec![b'u'; 255],
        ring_back_tones: vec![
            Address::Tone(0),
            Address::Tone(1),
            Address::Tone(255),
            Address::Tone(3),
            Address::Tone(4),
        ],
        subscribers: vec![
            Identity::new(1),
            Identity::new(2),
            Identity::new(3),
            Identity::new(4),
            Identity::new(u64::MAX),
        ],
        subscriptions_count: 5,
        amount_paid: u64::MAX,
    });
    match round_trip(rec) {
        Record::Artist(a) => {
            assert_eq!(a.artist_wallet_address, Identity::new(42));
            assert_eq!(a.artist_name, vec![b'n'; 20]);
            assert_eq!(a.artist_profile_url, vec![b'u'; 255]);
            assert_eq!(a.ring_back_tones[2], Address::Tone(255));
            assert_eq!(a.subscribers[4], Identity::new(u64::MAX));
            assert_eq!(a.subscriptions_count, 5);
            assert_eq!(a.amount_paid, u64::MAX);
        },
        _ => panic!("wrong record kind"),
    }
}

#[test]
fn artist_round_trips_with_empty_fields() {
    let rec = Record::Artist(MusicArtistAccount {
        artist_wallet_address: Identity::new(0),
        artist_name: Vec::new(),
        artist_profile_url: Vec::new(),
        ring_back_tones: Vec::new(),
        subscribers: Vec::new(),
        subscriptions_count: 0,
        amount_paid: 0,
    });
    match round_trip(rec) {
        Record::Artist(a) => {
            assert_eq!(a.artist_name, Vec::<u8>::new());
            assert_eq!(a.artist_profile_url, Vec::<u8>::new());
            assert_eq!(a.ring_back_tones, Vec::<Address>::new());
            assert_eq!(a.subscribers, Vec::<Identity>::new());
        },
        _ => panic!("wrong record kind"),
    }
}

#[test]
fn fan_round_trips_with_and_without_tone_slot() {
    let with = Record::Fan(MusicFanAccount {
        user_name: vec![b'f'; 20],
        user_wallet_address: Identity::new(7),
        user_profile_url: vec![b'p'; 255],
        ring_back_tone: Some(Address::Tone(17)),
    });
    match round_trip(with) {
        Record::Fan(f) => {
            assert_eq!(f.user_name, vec![b'f'; 20]);
            assert_eq!(f.user_profile_url, vec![b'p'; 255]);
            assert_eq!(f.ring_back_tone, Some(Address::Tone(17)));
        },
        _ => panic!("wrong record kind"),
    }
    let without = Record::Fan(MusicFanAccount {
        user_name: Vec::new(),
        user_wallet_address: Identity::new(0),
        user_profile_url: Vec::new(),
        ring_back_tone: None,
    });
    match round_trip(without) {
        Record::Fan(f) => {
            assert_eq!(f.user_name, Vec::<u8>::new());
            assert_eq!(f.ring_back_tone, None);
        },
        _ => panic!("wrong record kind"),
    }
}

#[test]
fn tone_round_trips_at_boundaries() {
    let rec = Record::Tone(RingBackToneAccount {
        signer: Identity::new(3),
        music_audio_name: vec![b'a'; 20],
        music_audio_code: 255,
        music_audio_url: vec![b'b'; 255],
        subscription_amount: u64::MAX,
        subscription_duration: vec![b'c'; 10],
        creator_time: -1,
        amount_donated: u64::MAX,
    });
    match round_trip(rec) {
        Record::Tone(t) => {
            assert_eq!(t.signer, Identity::new(3));
            assert_eq!(t.music_audio_name, vec![b'a'; 20]);
            assert_eq!(t.music_audio_code, 255);
            assert_eq!(t.music_audio_url, vec![b'b'; 255]);
            assert_eq!(t.subscription_amount, u64::MAX);
            assert_eq!(t.subscription_duration, vec![b'c'; 10]);
            assert_eq!(t.creator_time, -1);
            assert_eq!(t.amount_donated, u64::MAX);
        },
        _ => panic!("wrong record kind"),
    }
    let rec = Record::Tone(RingBackToneAccount {
        signer: Identity::new(0),
        music_audio_name: Vec::new(),
        music_audio_code: 0,
        music_audio_url: Vec::new(),
        subscription_amount: 0,
        subscription_duration: Vec::new(),
        creator_time: i64::MIN,
        amount_donated: 0,
    });
    match round_trip(rec) {
        Record::Tone(t) => {
            assert_eq!(t.creator_time, i64::MIN);
            assert_eq!(t.music_audio_name, Vec::<u8>::new());
        },
        _ => panic!("wrong record kind"),
    }
}

#[test]
fn reserved_space_bounds_every_encoding() {
    assert_eq!(OPERATOR_RECORD_SPACE, 10);
    assert_eq!(ARTIST_RECORD_SPACE, 382);
    assert_eq!(FAN_RECORD_SPACE, 296);
    assert_eq!(TONE_RECORD_SPACE, 322);
    let artist = Record::Artist(MusicArtistAccount {
        artist_wallet_address: Identity::new(42),
        artist_name: vec![b'n'; 20],
        artist_profile_url: vec![b'u'; 255],
        ring_back_tones: vec![
            Address::Artist(Identity::new(1)),
            Address::Artist(Identity::new(2)),
            Address::Artist(Identity::new(3)),
            Address::Artist(Identity::new(4)),
            Address::Artist(Identity::new(5)),
        ],
        subscribers: vec![
            Identity::new(1),
            Identity::new(2),
            Identity::new(3),
            Identity::new(4),
            Identity::new(5),
        ],
        subscriptions_count: 5,
        amount_paid: 1,
    });
    // The largest artist record fills the reserved space exactly.
    assert_eq!(encode_record(&artist).len(), ARTIST_RECORD_SPACE);
    let fan = Record::Fan(MusicFanAccount {
        user_name: vec![b'f'; 20],
        user_wallet_address: Identity::new(7),
        user_profile_url: vec![b'p'; 255],
        ring_back_tone: Some(Address::Fan(Identity::new(9))),
    });
    assert_eq!(encode_record(&fan).len(), FAN_RECORD_SPACE);
    let tone = Record::Tone(RingBackToneAccount {
        signer: Identity::new(3),
        music_audio_name: vec![b'a'; 20],
        music_audio_code: 1,
        music_audio_url: vec![b'b'; 255],
        subscription_amount: 1,
        subscription_duration: vec![b'c'; 10],
        creator_time: 0,
        amount_donated: 0,
    });
    assert_eq!(encode_record(&tone).len(), TONE_RECORD_SPACE);
}

#[test]
fn malformed_bytes_do_not_decode() {
    // An empty input, an unknown discriminator, a truncated record, a
    // record with trailing bytes, and a text field over its cap.
    assert!(decode_record(&Vec::new()).is_none());
    assert!(decode_record(&vec![99]).is_none());
    assert!(decode_record(&vec![1, 8, 7, 6]).is_none());
    assert!(decode_record(&vec![1, 8, 7, 6, 5, 4, 3, 2, 1, 9, 0]).is_none());
    let rec = Record::Artist(MusicArtistAccount {
        artist_wallet_address: Identity::new(1),
        artist_name: vec![b'n'; 20],
        artist_profile_url: b"u".to_vec(),
        ring_back_tones: Vec::new(),
        subscribers: Vec::new(),
        subscriptions_count: 0,
        amount_paid: 0,
    });
    let mut bytes = encode_record(&rec);
    // Claim a 21-byte name: one over the cap, refused even with the byte added.
    bytes[9] = 21;
    bytes.insert(10 + 20, b'n');
    assert!(decode_record(&bytes).is_none());
}
