//! The entity records: one record type per entity, together with the
//! mathematical view of each record and its well-formedness predicate.

use vstd::prelude::*;
use crate::address::Address;
use crate::identity::Identity;
use crate::limits::{
    ARTIST_NAME_LENGTH, ARTIST_URL_LENGTH, AUDIO_NAME_LENGTH, AUDIO_URL_LENGTH,
    NUMBER_OF_ALLOWED_RINGBACKTONES_SPACE, NUMBER_OF_ALLOWED_SUBSCRIBERS_SPACE,
    SUBSCRIPTION_DURATION_LENGTH, USER_NAME_LENGTH, USER_URL_LENGTH,
};
use crate::validation::blank;

verus! {

/// The platform singleton: the operator's identity and the count of tones
/// ever uploaded.  Created once by platform setup; the count is mutated only
/// by tone upload, and never decremented.
pub struct MobileNetworkOperatorAccount {
    /// The identity that set the platform up.
    pub signer: Identity,
    /// How many tones have ever been uploaded; also the derivation key of
    /// the next tone's address.
    pub ring_back_tones_count: u8,
}

/// An artist's profile.  Created once per identity; mutated by tone upload
/// (a reference is appended) and by subscription (a subscriber is appended
/// and the accumulators grow).
pub struct MusicArtistAccount {
    /// The identity that owns this profile.
    pub artist_wallet_address: Identity,
    /// Display name, at most `ARTIST_NAME_LENGTH` bytes and not blank.
    pub artist_name: Vec<u8>,
    /// Profile URL, at most `ARTIST_URL_LENGTH` bytes and not blank.
    pub artist_profile_url: Vec<u8>,
    /// Addresses of the tones this artist uploaded, each at most once.
    pub ring_back_tones: Vec<Address>,
    /// Identities subscribed to this artist, each at most once.
    pub subscribers: Vec<Identity>,
    /// How many subscriptions were taken; equals the subscriber count.
    pub subscriptions_count: u8,
    /// Cumulative amount received over all subscriptions.
    pub amount_paid: u64,
}

/// One uploaded ring-back-tone.  Created once per upload; only the received
/// amount is mutated afterwards, by subscription.
pub struct RingBackToneAccount {
    /// The artist identity that uploaded the tone.
    pub signer: Identity,
    /// Audio name, at most `AUDIO_NAME_LENGTH` bytes and not blank.
    pub music_audio_name: Vec<u8>,
    /// Audio classification code, strictly positive.
    pub music_audio_code: u8,
    /// Audio URL, at most `AUDIO_URL_LENGTH` bytes and not blank.
    pub music_audio_url: Vec<u8>,
    /// Subscription price, strictly positive.
    pub subscription_amount: u64,
    /// Duration label, at most `SUBSCRIPTION_DURATION_LENGTH` bytes and not
    /// blank; stored but never interpreted.
    pub subscription_duration: Vec<u8>,
    /// Creation timestamp, read from the host's clock at upload time.
    pub creator_time: i64,
    /// Cumulative amount received from subscriptions to this tone.
    pub amount_donated: u64,
}

/// A fan's profile.  Created once per identity and not mutated afterwards:
/// the single subscribed-tone slot is kept for layout compatibility, while
/// subscriptions themselves live in the artists' subscriber sets.
pub struct MusicFanAccount {
    /// Display name, at most `USER_NAME_LENGTH` bytes and not blank.
    pub user_name: Vec<u8>,
    /// The identity that owns this profile.
    pub user_wallet_address: Identity,
    /// Profile URL, at most `USER_URL_LENGTH` bytes and not blank.
    pub user_profile_url: Vec<u8>,
    /// The single subscribed-tone slot; never filled by any handler.
    pub ring_back_tone: Option<Address>,
}

/// One record of the entity store.
pub enum Record {
    /// The platform singleton.
    Operator(MobileNetworkOperatorAccount),
    /// An artist profile.
    Artist(MusicArtistAccount),
    /// A fan profile.
    Fan(MusicFanAccount),
    /// An uploaded tone.
    Tone(RingBackToneAccount),
}

/// The view of an artist profile: byte fields as sequences.
pub struct MusicArtistAccountV {
    pub artist_wallet_address: Identity,
    pub artist_name: Seq<u8>,
    pub artist_profile_url: Seq<u8>,
    pub ring_back_tones: Seq<Address>,
    pub subscribers: Seq<Identity>,
    pub subscriptions_count: u8,
    pub amount_paid: u64,
}

/// The view of a tone record: byte fields as sequences.
pub struct RingBackToneAccountV {
    pub signer: Identity,
    pub music_audio_name: Seq<u8>,
    pub music_audio_code: u8,
    pub music_audio_url: Seq<u8>,
    pub subscription_amount: u64,
    pub subscription_duration: Seq<u8>,
    pub creator_time: i64,
    pub amount_donated: u64,
}

/// The view of a fan profile: byte fields as sequences.
pub struct MusicFanAccountV {
    pub user_name: Seq<u8>,
    pub user_wallet_address: Identity,
    pub user_profile_url: Seq<u8>,
    pub ring_back_tone: Option<Address>,
}

/// The view of a store record.
pub enum RecordV {
    Operator(MobileNetworkOperatorAccount),
    Artist(MusicArtistAccountV),
    Fan(MusicFanAccountV),
    Tone(RingBackToneAccountV),
}

impl View for MusicArtistAccount {
    type V = MusicArtistAccountV;

    open spec fn view(&self) -> MusicArtistAccountV {
        MusicArtistAccountV {
            artist_wallet_address: self.artist_wallet_address,
            artist_name: self.artist_name@,
            artist_profile_url: self.artist_profile_url@,
            ring_back_tones: self.ring_back_tones@,
            subscribers: self.subscribers@,
            subscriptions_count: self.subscriptions_count,
            amount_paid: self.amount_paid,
        }
    }
}

impl View for RingBackToneAccount {
    type V = RingBackToneAccountV;

    open spec fn view(&self) -> RingBackToneAccountV {
        RingBackToneAccountV {
            signer: self.signer,
            music_audio_name: self.music_audio_name@,
            music_audio_code: self.music_audio_code,
            music_audio_url: self.music_audio_url@,
            subscription_amount: self.subscription_amount,
            subscription_duration: self.subscription_duration@,
            creator_time: self.creator_time,
            amount_donated: self.amount_donated,
        }
    }
}

impl View for MusicFanAccount {
    type V = MusicFanAccountV;

    open spec fn view(&self) -> MusicFanAccountV {
        MusicFanAccountV {
            user_name: self.user_name@,
            user_wallet_address: self.user_wallet_address,
            user_profile_url: self.user_profile_url@,
            ring_back_tone: self.ring_back_tone,
        }
    }
}

impl View for Record {
    type V = RecordV;

    open spec fn view(&self) -> RecordV {
        match self {
            Record::Operator(o) => RecordV::Operator(*o),
            Record::Artist(a) => RecordV::Artist(a@),
            Record::Fan(f) => RecordV::Fan(f@),
            Record::Tone(t) => RecordV::Tone(t@),
        }
    }
}

/// Well-formedness of an artist profile owned by `id`: the owner matches,
/// the text fields are non-blank and within their caps, both collections are
/// within the reserved capacity and free of duplicates, every owned
/// reference is a tone address, and the subscription count equals the
/// subscriber count.
pub open spec fn wf_artist(a: MusicArtistAccountV, id: Identity) -> bool {
    &&& a.artist_wallet_address == id
    &&& !blank(a.artist_name)
    &&& a.artist_name.len() <= ARTIST_NAME_LENGTH
    &&& !blank(a.artist_profile_url)
    &&& a.artist_profile_url.len() <= ARTIST_URL_LENGTH
    &&& a.ring_back_tones.len() <= NUMBER_OF_ALLOWED_RINGBACKTONES_SPACE
    &&& a.subscribers.len() <= NUMBER_OF_ALLOWED_SUBSCRIBERS_SPACE
    &&& a.subscriptions_count == a.subscribers.len()
    &&& forall|i: int, j: int|
        0 <= i < j < a.ring_back_tones.len() ==> a.ring_back_tones[i] != a.ring_back_tones[j]
    &&& forall|i: int, j: int|
        0 <= i < j < a.subscribers.len() ==> a.subscribers[i] != a.subscribers[j]
    &&& forall|i: int| 0 <= i < a.ring_back_tones.len() ==> (#[trigger] a.ring_back_tones[i]) is Tone
}

/// Well-formedness of a fan profile owned by `id`: the owner matches, the
/// text fields are non-blank and within their caps, and the subscribed-tone
/// slot, if filled, holds a tone address.
pub open spec fn wf_fan(f: MusicFanAccountV, id: Identity) -> bool {
    &&& f.user_wallet_address == id
    &&& !blank(f.user_name)
    &&& f.user_name.len() <= USER_NAME_LENGTH
    &&& !blank(f.user_profile_url)
    &&& f.user_profile_url.len() <= USER_URL_LENGTH
    &&& f.ring_back_tone matches Some(t) ==> t is Tone
}

/// Well-formedness of a tone record: the text fields are non-blank and
/// within their caps, and the code and the price are strictly positive.
pub open spec fn wf_tone(t: RingBackToneAccountV) -> bool {
    &&& !blank(t.music_audio_name)
    &&& t.music_audio_name.len() <= AUDIO_NAME_LENGTH
    &&& !blank(t.music_audio_url)
    &&& t.music_audio_url.len() <= AUDIO_URL_LENGTH
    &&& !blank(t.subscription_duration)
    &&& t.subscription_duration.len() <= SUBSCRIPTION_DURATION_LENGTH
    &&& t.music_audio_code > 0
    &&& t.subscription_amount > 0
}

/// Copies a vector of plain copyable values.
pub fn clone_copy_vec<T: Copy>(v: &Vec<T>) -> (r: Vec<T>)
    ensures
        r@ == v@,
{
    let mut r: Vec<T> = Vec::new();
    let mut i: usize = 0;
    while i < v.len()
        invariant
            0 <= i <= v@.len(),
            r@ == v@.subrange(0, i as int),
        decreases v@.len() - i,
    {
        r.push(v[i]);
        i = i + 1;
    }
    assert(v@.subrange(0, v@.len() as int) =~= v@);
    r
}

/// Whether an identity stands in a vector of identities.
pub fn contains_identity(v: &Vec<Identity>, x: Identity) -> (r: bool)
    ensures
        r == v@.contains(x),
{
    let mut i: usize = 0;
    while i < v.len()
        invariant
            0 <= i <= v@.len(),
            forall|j: int| 0 <= j < i ==> v@[j] != x,
        decreases v@.len() - i,
    {
        if v[i] == x {
            return true;
        }
        i = i + 1;
    }
    false
}

/// Whether an address stands in a vector of addresses.
pub fn contains_address(v: &Vec<Address>, x: Address) -> (r: bool)
    ensures
        r == v@.contains(x),
{
    let mut i: usize = 0;
    while i < v.len()
        invariant
            0 <= i <= v@.len(),
            forall|j: int| 0 <= j < i ==> v@[j] != x,
        decreases v@.len() - i,
    {
        if v[i] == x {
            return true;
        }
        i = i + 1;
    }
    false
}

} // verus!
