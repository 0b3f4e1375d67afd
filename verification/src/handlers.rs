//! The state-transition handlers: the five operations of the platform.
//!
//! Each handler composes validation, address derivation and the entity
//! store into one atomic transition: it checks everything first and mutates
//! only when the whole transition can commit, so a failed transition leaves
//! the store exactly as it was.

use vstd::prelude::*;
use crate::address::{Address, artist_address, fan_address, platform_address, tone_address};
use crate::errors::Errors;
use crate::identity::Identity;
use crate::limits::{
    ARTIST_NAME_LENGTH, ARTIST_URL_LENGTH, AUDIO_NAME_LENGTH, AUDIO_URL_LENGTH,
    NUMBER_OF_ALLOWED_RINGBACKTONES_SPACE, NUMBER_OF_ALLOWED_SUBSCRIBERS_SPACE,
    SUBSCRIPTION_DURATION_LENGTH, USER_NAME_LENGTH, USER_URL_LENGTH,
};
use crate::records::{
    MobileNetworkOperatorAccount, MusicArtistAccount, MusicFanAccount, Record, RecordV,
    RingBackToneAccount, clone_copy_vec, contains_address, contains_identity, wf_artist, wf_fan,
    wf_tone,
};
use crate::store::EntityStore;
use crate::validation::{TextCheck, blank, validate_positive, validate_text};

verus! {

/// Well-formedness of a deployment's whole state: every record stands at
/// the address its kind and key derive, every record satisfies its own
/// invariant, and the platform's tone count equals the number of tone
/// records ever created — a tone record exists exactly for the sequence
/// numbers below the count, and none exists before platform setup.
pub open spec fn wf_state(m: Map<Address, RecordV>) -> bool {
    &&& m.contains_key(platform_address())
        ==> m[platform_address()] is Operator
    &&& forall|id: Identity| #[trigger] m.contains_key(artist_address(id))
        ==> (m[artist_address(id)] matches RecordV::Artist(a) && wf_artist(a, id))
    &&& forall|id: Identity| #[trigger] m.contains_key(fan_address(id))
        ==> (m[fan_address(id)] matches RecordV::Fan(f) && wf_fan(f, id))
    &&& forall|n: u8| #[trigger] m.contains_key(tone_address(n))
        ==> (m[tone_address(n)] matches RecordV::Tone(t) && wf_tone(t))
    &&& m.contains_key(platform_address())
        ==> (forall|n: u8| #[trigger] m.contains_key(tone_address(n))
            <==> n < m[platform_address()]->Operator_0.ring_back_tones_count)
    &&& !m.contains_key(platform_address())
        ==> (forall|n: u8| !(#[trigger] m.contains_key(tone_address(n))))
}

/// Creates the platform singleton for `caller` with a tone count of zero.
/// Fails with `AccountAlreadyExists`, changing nothing, where the platform
/// was already set up: setup happens at most once per deployment.
pub fn setup_platform(store: &mut EntityStore, caller: Identity) -> (r: Result<(), Errors>)
    requires
        old(store).inv(),
        wf_state(old(store)@),
    ensures
        final(store).inv(),
        wf_state(final(store)@),
        old(store)@.contains_key(platform_address()) ==> r == Err::<(), Errors>(
            Errors::AccountAlreadyExists,
        ) && final(store)@ == old(store)@,
        !old(store)@.contains_key(platform_address()) ==> {
            &&& r == Ok::<(), Errors>(())
            &&& final(store)@.contains_key(platform_address())
            &&& final(store)@[platform_address()] matches RecordV::Operator(o)
                && o.signer == caller && o.ring_back_tones_count == 0
            &&& final(store)@ == old(store)@.insert(
                platform_address(),
                final(store)@[platform_address()],
            )
        },
{
    let a = crate::address::derive_platform_address();
    let rec = Record::Operator(
        MobileNetworkOperatorAccount { signer: caller, ring_back_tones_count: 0 },
    );
    let res = store.create(a, rec);
    match res {
        Ok(()) => {
            proof {
                let m0 = old(store)@;
                let m1 = store@;
                assert forall|n: u8| #[trigger] m1.contains_key(tone_address(n))
                    implies n < m1[platform_address()]->Operator_0.ring_back_tones_count by {
                    assert(m0.contains_key(tone_address(n)));
                }
            }
            Ok(())
        },
        Err(e) => Err(e),
    }
}

/// Creates an artist profile for `caller` at the address derived from the
/// caller's identity.  Blank fields are rejected first, then fields over
/// their byte caps, then a profile already created for this identity; a
/// rejected sign-up changes nothing.
pub fn sign_up_music_artist(
    store: &mut EntityStore,
    caller: Identity,
    name: Vec<u8>,
    profile_url: Vec<u8>,
) -> (r: Result<(), Errors>)
    requires
        old(store).inv(),
        wf_state(old(store)@),
    ensures
        final(store).inv(),
        wf_state(final(store)@),
        blank(name@) || blank(profile_url@) ==> r == Err::<(), Errors>(Errors::CannotSignUpUser)
            && final(store)@ == old(store)@,
        !(blank(name@) || blank(profile_url@)) && name@.len() > ARTIST_NAME_LENGTH ==> r
            == Err::<(), Errors>(Errors::ExceededNameMaxLength) && final(store)@ == old(store)@,
        !(blank(name@) || blank(profile_url@)) && name@.len() <= ARTIST_NAME_LENGTH
            && profile_url@.len() > ARTIST_URL_LENGTH ==> r == Err::<(), Errors>(
            Errors::ExceededUserUrlMaxLength,
        ) && final(store)@ == old(store)@,
        !(blank(name@) || blank(profile_url@)) && name@.len() <= ARTIST_NAME_LENGTH
            && profile_url@.len() <= ARTIST_URL_LENGTH && old(store)@.contains_key(
            artist_address(caller),
        ) ==> r == Err::<(), Errors>(Errors::AccountAlreadyExists) && final(store)@ == old(
            store,
        )@,
        !(blank(name@) || blank(profile_url@)) && name@.len() <= ARTIST_NAME_LENGTH
            && profile_url@.len() <= ARTIST_URL_LENGTH && !old(store)@.contains_key(
            artist_address(caller),
        ) ==> {
            &&& r == Ok::<(), Errors>(())
            &&& final(store)@.contains_key(artist_address(caller))
            &&& final(store)@[artist_address(caller)] matches RecordV::Artist(a)
                && a.artist_wallet_address == caller && a.artist_name == name@
                && a.artist_profile_url == profile_url@ && a.ring_back_tones
                == Seq::<Address>::empty() && a.subscribers == Seq::<Identity>::empty()
                && a.subscriptions_count == 0 && a.amount_paid == 0
            &&& final(store)@ == old(store)@.insert(
                artist_address(caller),
                final(store)@[artist_address(caller)],
            )
        },
{
    match validate_text(&name, ARTIST_NAME_LENGTH) {
        TextCheck::EmptyField => {
            return Err(Errors::CannotSignUpUser);
        },
        _ => {},
    }
    match validate_text(&profile_url, ARTIST_URL_LENGTH) {
        TextCheck::EmptyField => {
            return Err(Errors::CannotSignUpUser);
        },
        _ => {},
    }
    if name.len() > ARTIST_NAME_LENGTH {
        return Err(Errors::ExceededNameMaxLength);
    }
    if profile_url.len() > ARTIST_URL_LENGTH {
        return Err(Errors::ExceededUserUrlMaxLength);
    }
    let a = crate::address::derive_artist_address(caller);
    let rec = Record::Artist(
        MusicArtistAccount {
            artist_wallet_address: caller,
            artist_name: name,
            artist_profile_url: profile_url,
            ring_back_tones: Vec::new(),
            subscribers: Vec::new(),
            subscriptions_count: 0,
            amount_paid: 0,
        },
    );
    let res = store.create(a, rec);
    match res {
        Ok(()) => {
            proof {
                lemma_wf_after_insert_profile(old(store)@, store@, a);
            }
            Ok(())
        },
        Err(e) => Err(e),
    }
}

/// Creates a fan profile for `caller` at the address derived from the
/// caller's identity, with the subscribed-tone slot empty.  Symmetric to
/// the artist sign-up.
pub fn sign_up_music_fan(
    store: &mut EntityStore,
    caller: Identity,
    name: Vec<u8>,
    profile_url: Vec<u8>,
) -> (r: Result<(), Errors>)
    requires
        old(store).inv(),
        wf_state(old(store)@),
    ensures
        final(store).inv(),
        wf_state(final(store)@),
        blank(name@) || blank(profile_url@) ==> r == Err::<(), Errors>(Errors::CannotSignUpUser)
            && final(store)@ == old(store)@,
        !(blank(name@) || blank(profile_url@)) && name@.len() > USER_NAME_LENGTH ==> r
            == Err::<(), Errors>(Errors::ExceededNameMaxLength) && final(store)@ == old(store)@,
        !(blank(name@) || blank(profile_url@)) && name@.len() <= USER_NAME_LENGTH
            && profile_url@.len() > USER_URL_LENGTH ==> r == Err::<(), Errors>(
            Errors::ExceededUserUrlMaxLength,
        ) && final(store)@ == old(store)@,
        !(blank(name@) || blank(profile_url@)) && name@.len() <= USER_NAME_LENGTH
            && profile_url@.len() <= USER_URL_LENGTH && old(store)@.contains_key(
            fan_address(caller),
        ) ==> r == Err::<(), Errors>(Errors::AccountAlreadyExists) && final(store)@ == old(
            store,
        )@,
        !(blank(name@) || blank(profile_url@)) && name@.len() <= USER_NAME_LENGTH
            && profile_url@.len() <= USER_URL_LENGTH && !old(store)@.contains_key(
            fan_address(caller),
        ) ==> {
            &&& r == Ok::<(), Errors>(())
            &&& final(store)@.contains_key(fan_address(caller))
            &&& final(store)@[fan_address(caller)] matches RecordV::Fan(f)
                && f.user_wallet_address == caller && f.user_name == name@
                && f.user_profile_url == profile_url@ && f.ring_back_tone is None
            &&& final(store)@ == old(store)@.insert(
                fan_address(caller),
                final(store)@[fan_address(caller)],
            )
        },
{
    match validate_text(&name, USER_NAME_LENGTH) {
        TextCheck::EmptyField => {
            return Err(Errors::CannotSignUpUser);
        },
        _ => {},
    }
    match validate_text(&profile_url, USER_URL_LENGTH) {
        TextCheck::EmptyField => {
            return Err(Errors::CannotSignUpUser);
        },
        _ => {},
    }
    if name.len() > USER_NAME_LENGTH {
        return Err(Errors::ExceededNameMaxLength);
    }
    if profile_url.len() > USER_URL_LENGTH {
        return Err(Errors::ExceededUserUrlMaxLength);
    }
    let a = crate::address::derive_fan_address(caller);
    let rec = Record::Fan(
        MusicFanAccount {
            user_name: name,
            user_wallet_address: caller,
            user_profile_url: profile_url,
            ring_back_tone: None,
        },
    );
    let res = store.create(a, rec);
    match res {
        Ok(()) => {
            proof {
                lemma_wf_after_insert_profile(old(store)@, store@, a);
            }
            Ok(())
        },
        Err(e) => Err(e),
    }
}

/// A value transfer for the host's ledger to execute: the subscription
/// handler commits its state change and hands one of these back, so that a
/// transfer the ledger refuses leaves no half-done mutation behind.
#[derive(Clone, Copy, Debug, PartialEq, Eq, Structural)]
pub struct Transfer {
    /// The paying identity.
    pub from: Identity,
    /// The address of the tone account the payment goes to.
    pub to: Address,
    /// The paid amount.
    pub amount: u64,
}

/// Uploads a ring-back-tone for `caller`: creates the tone record at the
/// address derived from the platform's current tone count, increments that
/// count, and appends the tone's address to the caller's owned-tone list.
/// The platform and the caller's artist profile must exist; every text
/// field is validated, the code and the price must be strictly positive,
/// and the whole transition aborts, changing nothing, on any failure.
/// `now` is the host clock's current timestamp, stored as given.
pub fn upload_ring_back_tone(
    store: &mut EntityStore,
    caller: Identity,
    audio_name: Vec<u8>,
    audio_code: u8,
    audio_url: Vec<u8>,
    subscription_amount: u64,
    subscription_duration: Vec<u8>,
    now: i64,
) -> (r: Result<(), Errors>)
    requires
        old(store).inv(),
        wf_state(old(store)@),
    ensures
        final(store).inv(),
        wf_state(final(store)@),
        ({
            let m0 = old(store)@;
            let m1 = final(store)@;
            let pa = platform_address();
            let aa = artist_address(caller);
            if !m0.contains_key(pa) {
                r == Err::<(), Errors>(Errors::PlatformNotInitialized) && m1 == m0
            } else if !m0.contains_key(aa) {
                r == Err::<(), Errors>(Errors::AccountNotFound) && m1 == m0
            } else {
                let count = m0[pa]->Operator_0.ring_back_tones_count;
                let ta = tone_address(count);
                let ar0 = m0[aa]->Artist_0;
                if blank(audio_name@) || blank(audio_url@) || blank(subscription_duration@) {
                    r == Err::<(), Errors>(Errors::CannotUploadAudio) && m1 == m0
                } else if audio_name@.len() > AUDIO_NAME_LENGTH {
                    r == Err::<(), Errors>(Errors::ExceededAudioMaxLength) && m1 == m0
                } else if audio_url@.len() > AUDIO_URL_LENGTH {
                    r == Err::<(), Errors>(Errors::ExceededAudioUrlMaxLength) && m1 == m0
                } else if subscription_duration@.len() > SUBSCRIPTION_DURATION_LENGTH {
                    r == Err::<(), Errors>(Errors::ExceededSubscriptionDurationMaxLength) && m1
                        == m0
                } else if audio_code == 0 {
                    r == Err::<(), Errors>(Errors::InvalidAudioCode) && m1 == m0
                } else if subscription_amount == 0 {
                    r == Err::<(), Errors>(Errors::AmountNotgreaterThanZero) && m1 == m0
                } else if count == u8::MAX {
                    r == Err::<(), Errors>(Errors::NumericOverflow) && m1 == m0
                } else if ar0.ring_back_tones.contains(ta) {
                    r == Err::<(), Errors>(Errors::CannotAddRingbackTone) && m1 == m0
                } else if ar0.ring_back_tones.len() >= NUMBER_OF_ALLOWED_RINGBACKTONES_SPACE {
                    r == Err::<(), Errors>(Errors::CollectionFull) && m1 == m0
                } else {
                    &&& r == Ok::<(), Errors>(())
                    &&& m1.contains_key(ta)
                    &&& (m1[ta] matches RecordV::Tone(t) && t.signer == caller
                        && t.music_audio_name == audio_name@ && t.music_audio_code == audio_code
                        && t.music_audio_url == audio_url@ && t.subscription_amount
                        == subscription_amount && t.subscription_duration
                        == subscription_duration@ && t.creator_time == now && t.amount_donated
                        == 0)
                    &&& (m1[pa] matches RecordV::Operator(o) && o.signer
                        == m0[pa]->Operator_0.signer && o.ring_back_tones_count == count + 1)
                    &&& (m1[aa] matches RecordV::Artist(ar1) && ar1.ring_back_tones
                        == ar0.ring_back_tones.push(ta) && ar1.artist_wallet_address
                        == ar0.artist_wallet_address && ar1.artist_name == ar0.artist_name
                        && ar1.artist_profile_url == ar0.artist_profile_url && ar1.subscribers
                        == ar0.subscribers && ar1.subscriptions_count == ar0.subscriptions_count
                        && ar1.amount_paid == ar0.amount_paid)
                    &&& forall|b: Address| #[trigger] m1.contains_key(b)
                        <==> m0.contains_key(b) || b == ta
                    &&& forall|b: Address| b != pa && b != aa && b != ta && m0.contains_key(b)
                        ==> #[trigger] m1[b] == m0[b]
                }
            }
        }),
{
    let pa = crate::address::derive_platform_address();
    let (op_signer, count) = match store.get(&pa) {
        None => {
            return Err(Errors::PlatformNotInitialized);
        },
        Some(rec) => match rec {
            Record::Operator(o) => (o.signer, o.ring_back_tones_count),
            _ => {
                proof {
                    assert(false);
                }
                return Err(Errors::PlatformNotInitialized);
            },
        },
    };
    let aa = crate::address::derive_artist_address(caller);
    let (a_name, a_url, mut refs, subs, subs_count, paid) = match store.get(&aa) {
        None => {
            return Err(Errors::AccountNotFound);
        },
        Some(rec) => match rec {
            Record::Artist(ar) => (
                clone_copy_vec(&ar.artist_name),
                clone_copy_vec(&ar.artist_profile_url),
                clone_copy_vec(&ar.ring_back_tones),
                clone_copy_vec(&ar.subscribers),
                ar.subscriptions_count,
                ar.amount_paid,
            ),
            _ => {
                proof {
                    assert(false);
                }
                return Err(Errors::AccountNotFound);
            },
        },
    };
    let name_check = validate_text(&audio_name, AUDIO_NAME_LENGTH);
    let url_check = validate_text(&audio_url, AUDIO_URL_LENGTH);
    let duration_check = validate_text(&subscription_duration, SUBSCRIPTION_DURATION_LENGTH);
    if name_check == TextCheck::EmptyField || url_check == TextCheck::EmptyField
        || duration_check == TextCheck::EmptyField {
        return Err(Errors::CannotUploadAudio);
    }
    if name_check == TextCheck::ExceededMaxLength {
        return Err(Errors::ExceededAudioMaxLength);
    }
    if url_check == TextCheck::ExceededMaxLength {
        return Err(Errors::ExceededAudioUrlMaxLength);
    }
    if duration_check == TextCheck::ExceededMaxLength {
        return Err(Errors::ExceededSubscriptionDurationMaxLength);
    }
    if !validate_positive(audio_code as u64) {
        return Err(Errors::InvalidAudioCode);
    }
    if !validate_positive(subscription_amount) {
        return Err(Errors::AmountNotgreaterThanZero);
    }
    if count == u8::MAX {
        return Err(Errors::NumericOverflow);
    }
    let ta = crate::address::derive_tone_address(count);
    if contains_address(&refs, ta) {
        return Err(Errors::CannotAddRingbackTone);
    }
    if refs.len() >= NUMBER_OF_ALLOWED_RINGBACKTONES_SPACE {
        return Err(Errors::CollectionFull);
    }
    let ghost m0 = store@;
    let tone_rec = Record::Tone(
        RingBackToneAccount {
            signer: caller,
            music_audio_name: audio_name,
            music_audio_code: audio_code,
            music_audio_url: audio_url,
            subscription_amount,
            subscription_duration,
            creator_time: now,
            amount_donated: 0,
        },
    );
    match store.create(ta, tone_rec) {
        Ok(()) => {},
        Err(e) => {
            proof {
                assert(false);
            }
            return Err(e);
        },
    }
    match store.put(
        pa,
        Record::Operator(
            MobileNetworkOperatorAccount { signer: op_signer, ring_back_tones_count: count + 1 },
        ),
    ) {
        Ok(()) => {},
        Err(e) => {
            proof {
                assert(false);
            }
            return Err(e);
        },
    }
    refs.push(ta);
    match store.put(
        aa,
        Record::Artist(
            MusicArtistAccount {
                artist_wallet_address: caller,
                artist_name: a_name,
                artist_profile_url: a_url,
                ring_back_tones: refs,
                subscribers: subs,
                subscriptions_count: subs_count,
                amount_paid: paid,
            },
        ),
    ) {
        Ok(()) => {},
        Err(e) => {
            proof {
                assert(false);
            }
            return Err(e);
        },
    }
    proof {
        let m1 = store@;
        let ar0 = m0[aa]->Artist_0;
        assert forall|id: Identity| #[trigger] m1.contains_key(artist_address(id)) implies
            (m1[artist_address(id)] matches RecordV::Artist(a2) && wf_artist(a2, id)) by {
            if artist_address(id) == aa {
                let ar1 = m1[aa]->Artist_0;
                assert(ar1.ring_back_tones == ar0.ring_back_tones.push(ta));
                assert forall|i: int, j: int|
                    0 <= i < j < ar1.ring_back_tones.len() implies ar1.ring_back_tones[i]
                    != ar1.ring_back_tones[j] by {
                    if j == ar1.ring_back_tones.len() - 1 {
                        assert(ar1.ring_back_tones[i] == ar0.ring_back_tones[i]);
                        assert(ar0.ring_back_tones.contains(ar0.ring_back_tones[i]));
                    }
                }
            }
        }
        assert forall|n: u8| #[trigger] m1.contains_key(tone_address(n)) implies
            (m1[tone_address(n)] matches RecordV::Tone(t) && wf_tone(t)) by {
            if tone_address(n) != ta {
                assert(m0.contains_key(tone_address(n)));
            }
        }
        let count = m0[platform_address()]->Operator_0.ring_back_tones_count;
        assert forall|n: u8| #[trigger] m1.contains_key(tone_address(n))
            <==> n < m1[platform_address()]->Operator_0.ring_back_tones_count by {
            if tone_address(n) == ta {
            } else {
                assert(m1.contains_key(tone_address(n)) <==> m0.contains_key(tone_address(n)));
                assert(n != count);
            }
        }
    }
    Ok(())
}

/// Subscribes `caller` to the tone at address `tone` for `amount`: appends
/// the caller to the tone owner's subscriber set, increments that artist's
/// subscription count, accumulates the amount on the artist and on the
/// tone, and returns the value transfer for the host's ledger to execute.
/// The amount must be strictly positive and — as the platform literally
/// has it — must not equal the tone's subscription price; a caller already
/// subscribed to the same artist is rejected, and any failure changes
/// nothing.
pub fn subscribe_ring_back_tone(
    store: &mut EntityStore,
    caller: Identity,
    tone: Address,
    amount: u64,
) -> (r: Result<Transfer, Errors>)
    requires
        old(store).inv(),
        wf_state(old(store)@),
    ensures
        final(store).inv(),
        wf_state(final(store)@),
        ({
            let m0 = old(store)@;
            let m1 = final(store)@;
            if amount == 0 {
                r == Err::<Transfer, Errors>(Errors::AmountNotgreaterThanZero) && m1 == m0
            } else if !(m0.contains_key(tone) && m0[tone] is Tone) {
                r == Err::<Transfer, Errors>(Errors::AccountNotFound) && m1 == m0
            } else {
                let t0 = m0[tone]->Tone_0;
                let aa = artist_address(t0.signer);
                if amount == t0.subscription_amount {
                    r == Err::<Transfer, Errors>(Errors::ExceededTargetAmount) && m1 == m0
                } else if !m0.contains_key(aa) {
                    r == Err::<Transfer, Errors>(Errors::AccountNotFound) && m1 == m0
                } else {
                    let ar0 = m0[aa]->Artist_0;
                    if ar0.subscribers.contains(caller) {
                        r == Err::<Transfer, Errors>(Errors::UserSubscribedAudio) && m1 == m0
                    } else if ar0.subscribers.len() >= NUMBER_OF_ALLOWED_SUBSCRIBERS_SPACE {
                        r == Err::<Transfer, Errors>(Errors::CollectionFull) && m1 == m0
                    } else if ar0.amount_paid + amount > u64::MAX || t0.amount_donated + amount
                        > u64::MAX {
                        r == Err::<Transfer, Errors>(Errors::NumericOverflow) && m1 == m0
                    } else {
                        &&& r == Ok::<Transfer, Errors>(
                            Transfer { from: caller, to: tone, amount },
                        )
                        &&& (m1[aa] matches RecordV::Artist(ar1) && ar1.subscribers
                            == ar0.subscribers.push(caller) && ar1.subscriptions_count
                            == ar0.subscriptions_count + 1 && ar1.amount_paid == ar0.amount_paid
                            + amount && ar1.artist_wallet_address == ar0.artist_wallet_address
                            && ar1.artist_name == ar0.artist_name && ar1.artist_profile_url
                            == ar0.artist_profile_url && ar1.ring_back_tones
                            == ar0.ring_back_tones)
                        &&& (m1[tone] matches RecordV::Tone(t1) && t1.amount_donated
                            == t0.amount_donated + amount && t1.signer == t0.signer
                            && t1.music_audio_name == t0.music_audio_name
                            && t1.music_audio_code == t0.music_audio_code && t1.music_audio_url
                            == t0.music_audio_url && t1.subscription_amount
                            == t0.subscription_amount && t1.subscription_duration
                            == t0.subscription_duration && t1.creator_time == t0.creator_time)
                        &&& forall|b: Address| #[trigger] m1.contains_key(b)
                            <==> m0.contains_key(b)
                        &&& forall|b: Address| b != aa && b != tone && m0.contains_key(b)
                            ==> #[trigger] m1[b] == m0[b]
                    }
                }
            }
        }),
{
    if !validate_positive(amount) {
        return Err(Errors::AmountNotgreaterThanZero);
    }
    let (t_signer, t_name, t_code, t_url, t_amount, t_duration, t_time, t_donated) = match store
        .get(&tone) {
        None => {
            return Err(Errors::AccountNotFound);
        },
        Some(rec) => match rec {
            Record::Tone(t) => (
                t.signer,
                clone_copy_vec(&t.music_audio_name),
                t.music_audio_code,
                clone_copy_vec(&t.music_audio_url),
                t.subscription_amount,
                clone_copy_vec(&t.subscription_duration),
                t.creator_time,
                t.amount_donated,
            ),
            _ => {
                return Err(Errors::AccountNotFound);
            },
        },
    };
    if amount == t_amount {
        return Err(Errors::ExceededTargetAmount);
    }
    let aa = crate::address::derive_artist_address(t_signer);
    let (a_name, a_url, refs, mut subs, subs_count, paid) = match store.get(&aa) {
        None => {
            return Err(Errors::AccountNotFound);
        },
        Some(rec) => match rec {
            Record::Artist(ar) => (
                clone_copy_vec(&ar.artist_name),
                clone_copy_vec(&ar.artist_profile_url),
                clone_copy_vec(&ar.ring_back_tones),
                clone_copy_vec(&ar.subscribers),
                ar.subscriptions_count,
                ar.amount_paid,
            ),
            _ => {
                proof {
                    assert(false);
                }
                return Err(Errors::AccountNotFound);
            },
        },
    };
    if contains_identity(&subs, caller) {
        return Err(Errors::UserSubscribedAudio);
    }
    if subs.len() >= NUMBER_OF_ALLOWED_SUBSCRIBERS_SPACE {
        return Err(Errors::CollectionFull);
    }
    if paid > u64::MAX - amount || t_donated > u64::MAX - amount {
        return Err(Errors::NumericOverflow);
    }
    let ghost m0 = store@;
    subs.push(caller);
    match store.put(
        aa,
        Record::Artist(
            MusicArtistAccount {
                artist_wallet_address: t_signer,
                artist_name: a_name,
                artist_profile_url: a_url,
                ring_back_tones: refs,
                subscribers: subs,
                subscriptions_count: subs_count + 1,
                amount_paid: paid + amount,
            },
        ),
    ) {
        Ok(()) => {},
        Err(e) => {
            proof {
                assert(false);
            }
            return Err(e);
        },
    }
    match store.put(
        tone,
        Record::Tone(
            RingBackToneAccount {
                signer: t_signer,
                music_audio_name: t_name,
                music_audio_code: t_code,
                music_audio_url: t_url,
                subscription_amount: t_amount,
                subscription_duration: t_duration,
                creator_time: t_time,
                amount_donated: t_donated + amount,
            },
        ),
    ) {
        Ok(()) => {},
        Err(e) => {
            proof {
                assert(false);
            }
            return Err(e);
        },
    }
    proof {
        let m1 = store@;
        let ar0 = m0[aa]->Artist_0;
        assert forall|id: Identity| #[trigger] m1.contains_key(artist_address(id)) implies
            (m1[artist_address(id)] matches RecordV::Artist(a2) && wf_artist(a2, id)) by {
            if artist_address(id) == aa {
                let ar1 = m1[aa]->Artist_0;
                assert(ar1.subscribers == ar0.subscribers.push(caller));
                assert forall|i: int, j: int|
                    0 <= i < j < ar1.subscribers.len() implies ar1.subscribers[i]
                    != ar1.subscribers[j] by {
                    if j == ar1.subscribers.len() - 1 {
                        assert(ar1.subscribers[i] == ar0.subscribers[i]);
                        assert(ar0.subscribers.contains(ar0.subscribers[i]));
                    }
                }
            }
        }
        assert forall|n: u8| #[trigger] m1.contains_key(tone_address(n)) implies
            (m1[tone_address(n)] matches RecordV::Tone(t) && wf_tone(t)) by {
            if tone_address(n) != tone {
                assert(m0.contains_key(tone_address(n)));
            }
        }
        if m1.contains_key(platform_address()) {
            assert forall|n: u8| #[trigger] m1.contains_key(tone_address(n))
                <==> n < m1[platform_address()]->Operator_0.ring_back_tones_count by {
                assert(m1.contains_key(tone_address(n)) <==> m0.contains_key(tone_address(n)));
            }
        }
    }
    Ok(Transfer { from: caller, to: tone, amount })
}

/// Law: a well-formed state only holds records within the declared codec
/// caps, so every record a handler has written can be encoded and the
/// reserved storage of its kind suffices for it.
pub proof fn lemma_wf_records_encodable(m: Map<Address, RecordV>, a: Address)
    requires
        wf_state(m),
        m.contains_key(a),
    ensures
        crate::codec::encodable(m[a]),
{
    match a {
        Address::Platform => {
            assert(m.contains_key(platform_address()));
        },
        Address::Artist(id) => {
            assert(m.contains_key(artist_address(id)));
        },
        Address::Fan(id) => {
            assert(m.contains_key(fan_address(id)));
        },
        Address::Tone(n) => {
            assert(m.contains_key(tone_address(n)));
        },
    }
}

/// An insertion at an artist or fan address whose new record is well formed
/// keeps the whole state well formed: no other address changes, and the
/// platform's tone accounting does not involve profile addresses.
proof fn lemma_wf_after_insert_profile(
    m0: Map<Address, RecordV>,
    m1: Map<Address, RecordV>,
    a: Address,
)
    requires
        wf_state(m0),
        a is Artist || a is Fan,
        m1.contains_key(a),
        a matches Address::Artist(id) ==> (m1[a] matches RecordV::Artist(ar) && wf_artist(ar, id)),
        a matches Address::Fan(id) ==> (m1[a] matches RecordV::Fan(f) && wf_fan(f, id)),
        m1 == m0.insert(a, m1[a]),
    ensures
        wf_state(m1),
{
    assert forall|n: u8| #[trigger] m1.contains_key(tone_address(n)) implies m0.contains_key(
        tone_address(n),
    ) && m1[tone_address(n)] == m0[tone_address(n)] by {}
}

} // verus!
