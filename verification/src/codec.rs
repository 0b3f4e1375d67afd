//! The record codec: a fixed-schema binary layout for each entity.
//!
//! Each record is one discriminator byte followed by its fields in
//! declaration order.  Integers are little-endian and fixed-width, text
//! fields are length-prefixed with one byte (every cap is at most 255
//! bytes), and the bounded collections are count-prefixed.  Encoding then
//! decoding any record within the declared caps gives the record back
//! exactly.

use vstd::prelude::*;
use vstd::bytes::{
    lemma_auto_spec_u64_to_from_le_bytes, spec_u64_from_le_bytes, spec_u64_to_le_bytes,
    u64_from_le_bytes, u64_to_le_bytes,
};
use vstd::slice::{slice_subrange, slice_to_vec};
use crate::address::Address;
use crate::identity::Identity;
use crate::limits::{
    ARTIST_NAME_LENGTH, ARTIST_URL_LENGTH, AUDIO_NAME_LENGTH, AUDIO_URL_LENGTH,
    NUMBER_OF_ALLOWED_RINGBACKTONES_SPACE, NUMBER_OF_ALLOWED_SUBSCRIBERS_SPACE,
    SUBSCRIPTION_DURATION_LENGTH, USER_NAME_LENGTH, USER_URL_LENGTH,
};
use crate::records::{
    MobileNetworkOperatorAccount, MusicArtistAccount, MusicArtistAccountV, MusicFanAccount,
    MusicFanAccountV, Record, RecordV, RingBackToneAccount, RingBackToneAccountV,
};

verus! {

/// Discriminator byte of an encoded platform record.
pub const TAG_OPERATOR: u8 = 1;

/// Discriminator byte of an encoded artist record.
pub const TAG_ARTIST: u8 = 2;

/// Discriminator byte of an encoded fan record.
pub const TAG_FAN: u8 = 3;

/// Discriminator byte of an encoded tone record.
pub const TAG_TONE: u8 = 4;

/// The eight little-endian bytes of an unsigned integer.
pub open spec fn enc_u64(x: u64) -> Seq<u8> {
    spec_u64_to_le_bytes(x)
}

/// The eight little-endian bytes of a timestamp (two's complement).
pub open spec fn enc_i64(x: i64) -> Seq<u8> {
    spec_u64_to_le_bytes(x as u64)
}

/// The eight bytes of an identity.
pub open spec fn enc_identity(id: Identity) -> Seq<u8> {
    spec_u64_to_le_bytes(id.value)
}

/// A text field: one length byte, then the bytes themselves.
pub open spec fn enc_bytes_field(s: Seq<u8>) -> Seq<u8>
    recommends
        s.len() <= 255,
{
    seq![s.len() as u8] + s
}

/// An address: one namespace byte, then the namespace's key.
pub open spec fn enc_address(a: Address) -> Seq<u8> {
    match a {
        Address::Platform => seq![0u8],
        Address::Artist(id) => seq![1u8] + enc_identity(id),
        Address::Fan(id) => seq![2u8] + enc_identity(id),
        Address::Tone(n) => seq![3u8, n],
    }
}

/// The addresses of a list, one after the other.
pub open spec fn enc_address_list(s: Seq<Address>) -> Seq<u8>
    decreases s.len(),
{
    if s.len() == 0 {
        Seq::empty()
    } else {
        enc_address(s[0]) + enc_address_list(s.drop_first())
    }
}

/// The identities of a list, one after the other.
pub open spec fn enc_identity_list(s: Seq<Identity>) -> Seq<u8>
    decreases s.len(),
{
    if s.len() == 0 {
        Seq::empty()
    } else {
        enc_identity(s[0]) + enc_identity_list(s.drop_first())
    }
}

/// An optional address: a presence byte, then the address if present.
pub open spec fn enc_option_address(o: Option<Address>) -> Seq<u8> {
    match o {
        None => seq![0u8],
        Some(a) => seq![1u8] + enc_address(a),
    }
}

/// The encoded platform record.
pub open spec fn enc_operator(o: MobileNetworkOperatorAccount) -> Seq<u8> {
    seq![TAG_OPERATOR] + enc_identity(o.signer) + seq![o.ring_back_tones_count]
}

/// The encoded artist record.
pub open spec fn enc_artist(a: MusicArtistAccountV) -> Seq<u8> {
    seq![TAG_ARTIST] + enc_identity(a.artist_wallet_address) + enc_bytes_field(a.artist_name)
        + enc_bytes_field(a.artist_profile_url) + seq![a.ring_back_tones.len() as u8]
        + enc_address_list(a.ring_back_tones) + seq![a.subscribers.len() as u8]
        + enc_identity_list(a.subscribers) + seq![a.subscriptions_count] + enc_u64(a.amount_paid)
}

/// The encoded fan record.
pub open spec fn enc_fan(f: MusicFanAccountV) -> Seq<u8> {
    seq![TAG_FAN] + enc_bytes_field(f.user_name) + enc_identity(f.user_wallet_address)
        + enc_bytes_field(f.user_profile_url) + enc_option_address(f.ring_back_tone)
}

/// The encoded tone record.
pub open spec fn enc_tone(t: RingBackToneAccountV) -> Seq<u8> {
    seq![TAG_TONE] + enc_identity(t.signer) + enc_bytes_field(t.music_audio_name)
        + seq![t.music_audio_code] + enc_bytes_field(t.music_audio_url)
        + enc_u64(t.subscription_amount) + enc_bytes_field(t.subscription_duration)
        + enc_i64(t.creator_time) + enc_u64(t.amount_donated)
}

/// The encoded form of any record.
pub open spec fn enc_record(v: RecordV) -> Seq<u8> {
    match v {
        RecordV::Operator(o) => enc_operator(o),
        RecordV::Artist(a) => enc_artist(a),
        RecordV::Fan(f) => enc_fan(f),
        RecordV::Tone(t) => enc_tone(t),
    }
}

/// Storage to reserve for the platform record: header, identity, count.
pub const OPERATOR_RECORD_SPACE: usize = 1 + 8 + 1;

/// Storage to reserve for an artist record: header, identity, both text
/// fields at their caps with their length bytes, both collections at their
/// reserved cardinality with their count bytes (an encoded address takes at
/// most 9 bytes, an identity exactly 8), the subscription count and the
/// received amount.
pub const ARTIST_RECORD_SPACE: usize = 1 + 8 + (1 + ARTIST_NAME_LENGTH) + (1
    + ARTIST_URL_LENGTH) + (1 + 9 * NUMBER_OF_ALLOWED_RINGBACKTONES_SPACE) + (1 + 8
    * NUMBER_OF_ALLOWED_SUBSCRIBERS_SPACE) + 1 + 8;

/// Storage to reserve for a fan record: header, both text fields at their
/// caps with their length bytes, the identity, and the optional tone slot.
pub const FAN_RECORD_SPACE: usize = 1 + (1 + USER_NAME_LENGTH) + 8 + (1 + USER_URL_LENGTH) + (1
    + 9);

/// Storage to reserve for a tone record: header, identity, the three text
/// fields at their caps with their length bytes, the code, the price, the
/// timestamp and the received amount.
pub const TONE_RECORD_SPACE: usize = 1 + 8 + (1 + AUDIO_NAME_LENGTH) + 1 + (1
    + AUDIO_URL_LENGTH) + 8 + (1 + SUBSCRIPTION_DURATION_LENGTH) + 8 + 8;

/// The storage that must be reserved for a record of the given kind.
pub open spec fn record_space(v: RecordV) -> int {
    match v {
        RecordV::Operator(_) => OPERATOR_RECORD_SPACE as int,
        RecordV::Artist(_) => ARTIST_RECORD_SPACE as int,
        RecordV::Fan(_) => FAN_RECORD_SPACE as int,
        RecordV::Tone(_) => TONE_RECORD_SPACE as int,
    }
}

/// Whether a record fits the declared layout: every text field within its
/// byte cap and every collection within its reserved cardinality.
pub open spec fn encodable(v: RecordV) -> bool {
    match v {
        RecordV::Operator(_) => true,
        RecordV::Artist(a) => {
            &&& a.artist_name.len() <= ARTIST_NAME_LENGTH
            &&& a.artist_profile_url.len() <= ARTIST_URL_LENGTH
            &&& a.ring_back_tones.len() <= NUMBER_OF_ALLOWED_RINGBACKTONES_SPACE
            &&& a.subscribers.len() <= NUMBER_OF_ALLOWED_SUBSCRIBERS_SPACE
        },
        RecordV::Fan(f) => {
            &&& f.user_name.len() <= USER_NAME_LENGTH
            &&& f.user_profile_url.len() <= USER_URL_LENGTH
        },
        RecordV::Tone(t) => {
            &&& t.music_audio_name.len() <= AUDIO_NAME_LENGTH
            &&& t.music_audio_url.len() <= AUDIO_URL_LENGTH
            &&& t.subscription_duration.len() <= SUBSCRIPTION_DURATION_LENGTH
        },
    }
}

/// Appending one address to a list appends its encoding.
proof fn lemma_enc_address_list_snoc(s: Seq<Address>, a: Address)
    ensures
        enc_address_list(s.push(a)) == enc_address_list(s) + enc_address(a),
    decreases s.len(),
{
    if s.len() == 0 {
        assert(s.push(a)[0] == a);
        assert(s.push(a).drop_first() =~= Seq::<Address>::empty());
        assert(enc_address_list(s.push(a)) == enc_address(a) + enc_address_list(
            Seq::<Address>::empty(),
        ));
        assert(enc_address_list(Seq::<Address>::empty()) == Seq::<u8>::empty());
        assert(enc_address(a) + Seq::<u8>::empty() =~= enc_address(a));
        assert(Seq::<u8>::empty() + enc_address(a) =~= enc_address(a));
    } else {
        assert(s.push(a).len() > 0);
        assert(s.push(a)[0] == s[0]);
        assert(s.push(a).drop_first() =~= s.drop_first().push(a));
        assert(enc_address_list(s.push(a)) == enc_address(s[0]) + enc_address_list(
            s.drop_first().push(a),
        ));
        lemma_enc_address_list_snoc(s.drop_first(), a);
        assert(enc_address(s[0]) + (enc_address_list(s.drop_first()) + enc_address(a)) =~= (
        enc_address(s[0]) + enc_address_list(s.drop_first())) + enc_address(a));
    }
}

/// Appending one identity to a list appends its encoding.
proof fn lemma_enc_identity_list_snoc(s: Seq<Identity>, a: Identity)
    ensures
        enc_identity_list(s.push(a)) == enc_identity_list(s) + enc_identity(a),
    decreases s.len(),
{
    if s.len() == 0 {
        assert(s.push(a)[0] == a);
        assert(s.push(a).drop_first() =~= Seq::<Identity>::empty());
        assert(enc_identity_list(s.push(a)) == enc_identity(a) + enc_identity_list(
            Seq::<Identity>::empty(),
        ));
        assert(enc_identity_list(Seq::<Identity>::empty()) == Seq::<u8>::empty());
        assert(enc_identity(a) + Seq::<u8>::empty() =~= enc_identity(a));
        assert(Seq::<u8>::empty() + enc_identity(a) =~= enc_identity(a));
    } else {
        assert(s.push(a).len() > 0);
        assert(s.push(a)[0] == s[0]);
        assert(s.push(a).drop_first() =~= s.drop_first().push(a));
        assert(enc_identity_list(s.push(a)) == enc_identity(s[0]) + enc_identity_list(
            s.drop_first().push(a),
        ));
        lemma_enc_identity_list_snoc(s.drop_first(), a);
        assert(enc_identity(s[0]) + (enc_identity_list(s.drop_first()) + enc_identity(a)) =~= (
        enc_identity(s[0]) + enc_identity_list(s.drop_first())) + enc_identity(a));
    }
}

/// Appends the eight little-endian bytes of `x`.
fn push_u64(out: &mut Vec<u8>, x: u64)
    ensures
        final(out)@ == old(out)@ + enc_u64(x),
{
    let mut b = u64_to_le_bytes(x);
    out.append(&mut b);
}

/// Appends a length-prefixed text field.
fn push_bytes_field(out: &mut Vec<u8>, s: &Vec<u8>)
    requires
        s@.len() <= 255,
    ensures
        final(out)@ == old(out)@ + enc_bytes_field(s@),
{
    let ghost o0 = out@;
    out.push(s.len() as u8);
    let mut i: usize = 0;
    while i < s.len()
        invariant
            0 <= i <= s@.len(),
            s@.len() <= 255,
            out@ == o0.push(s@.len() as u8) + s@.subrange(0, i as int),
        decreases s@.len() - i,
    {
        let ghost before = out@;
        out.push(s[i]);
        proof {
            assert(out@ =~= o0.push(s@.len() as u8) + s@.subrange(0, i + 1));
        }
        i = i + 1;
    }
    proof {
        assert(s@.subrange(0, s@.len() as int) =~= s@);
        assert(o0.push(s@.len() as u8) + s@ =~= o0 + enc_bytes_field(s@));
    }
}

/// Appends an encoded address.
fn push_address(out: &mut Vec<u8>, a: Address)
    ensures
        final(out)@ == old(out)@ + enc_address(a),
{
    let ghost o0 = out@;
    match a {
        Address::Platform => {
            out.push(0u8);
            proof {
                assert(out@ =~= o0 + enc_address(a));
            }
        },
        Address::Artist(id) => {
            out.push(1u8);
            push_u64(out, id.value);
            proof {
                assert(out@ =~= o0 + enc_address(a));
            }
        },
        Address::Fan(id) => {
            out.push(2u8);
            push_u64(out, id.value);
            proof {
                assert(out@ =~= o0 + enc_address(a));
            }
        },
        Address::Tone(n) => {
            out.push(3u8);
            out.push(n);
            proof {
                assert(out@ =~= o0 + enc_address(a));
            }
        },
    }
}

/// Appends the encodings of a list of addresses.
fn push_address_list(out: &mut Vec<u8>, v: &Vec<Address>)
    ensures
        final(out)@ == old(out)@ + enc_address_list(v@),
{
    let ghost o0 = out@;
    let mut i: usize = 0;
    while i < v.len()
        invariant
            0 <= i <= v@.len(),
            out@ == o0 + enc_address_list(v@.subrange(0, i as int)),
        decreases v@.len() - i,
    {
        push_address(out, v[i]);
        proof {
            assert(v@.subrange(0, i + 1) =~= v@.subrange(0, i as int).push(v@[i as int]));
            lemma_enc_address_list_snoc(v@.subrange(0, i as int), v@[i as int]);
            assert((o0 + enc_address_list(v@.subrange(0, i as int))) + enc_address(v@[i as int])
                =~= o0 + (enc_address_list(v@.subrange(0, i as int)) + enc_address(
                v@[i as int],
            )));
        }
        i = i + 1;
    }
    proof {
        assert(v@.subrange(0, v@.len() as int) =~= v@);
    }
}

/// Appends the encodings of a list of identities.
fn push_identity_list(out: &mut Vec<u8>, v: &Vec<Identity>)
    ensures
        final(out)@ == old(out)@ + enc_identity_list(v@),
{
    let ghost o0 = out@;
    let mut i: usize = 0;
    while i < v.len()
        invariant
            0 <= i <= v@.len(),
            out@ == o0 + enc_identity_list(v@.subrange(0, i as int)),
        decreases v@.len() - i,
    {
        push_u64(out, v[i].value);
        proof {
            assert(v@.subrange(0, i + 1) =~= v@.subrange(0, i as int).push(v@[i as int]));
            lemma_enc_identity_list_snoc(v@.subrange(0, i as int), v@[i as int]);
            assert((o0 + enc_identity_list(v@.subrange(0, i as int))) + enc_identity(
                v@[i as int],
            ) =~= o0 + (enc_identity_list(v@.subrange(0, i as int)) + enc_identity(
                v@[i as int],
            )));
        }
        i = i + 1;
    }
    proof {
        assert(v@.subrange(0, v@.len() as int) =~= v@);
    }
}

/// Encodes a record into its fixed-layout byte form.
pub fn encode_record(r: &Record) -> (out: Vec<u8>)
    requires
        encodable(r@),
    ensures
        out@ == enc_record(r@),
        out@.len() <= record_space(r@),
{
    proof {
        lemma_record_space_sufficient(r@);
    }
    let mut out: Vec<u8> = Vec::new();
    match r {
        Record::Operator(o) => {
            out.push(TAG_OPERATOR);
            push_u64(&mut out, o.signer.value);
            out.push(o.ring_back_tones_count);
            proof {
                assert(out@ =~= enc_record(r@));
            }
        },
        Record::Artist(a) => {
            out.push(TAG_ARTIST);
            push_u64(&mut out, a.artist_wallet_address.value);
            push_bytes_field(&mut out, &a.artist_name);
            push_bytes_field(&mut out, &a.artist_profile_url);
            out.push(a.ring_back_tones.len() as u8);
            push_address_list(&mut out, &a.ring_back_tones);
            out.push(a.subscribers.len() as u8);
            push_identity_list(&mut out, &a.subscribers);
            out.push(a.subscriptions_count);
            push_u64(&mut out, a.amount_paid);
            proof {
                assert(out@ =~= enc_record(r@));
            }
        },
        Record::Fan(f) => {
            out.push(TAG_FAN);
            push_bytes_field(&mut out, &f.user_name);
            push_u64(&mut out, f.user_wallet_address.value);
            push_bytes_field(&mut out, &f.user_profile_url);
            match &f.ring_back_tone {
                None => {
                    out.push(0u8);
                },
                Some(a) => {
                    out.push(1u8);
                    push_address(&mut out, *a);
                },
            }
            proof {
                assert(out@ =~= enc_record(r@));
            }
        },
        Record::Tone(t) => {
            out.push(TAG_TONE);
            push_u64(&mut out, t.signer.value);
            push_bytes_field(&mut out, &t.music_audio_name);
            out.push(t.music_audio_code);
            push_bytes_field(&mut out, &t.music_audio_url);
            push_u64(&mut out, t.subscription_amount);
            push_bytes_field(&mut out, &t.subscription_duration);
            push_u64(&mut out, t.creator_time as u64);
            push_u64(&mut out, t.amount_donated);
            proof {
                assert(out@ =~= enc_record(r@));
            }
        },
    }
    out
}

/// Reads one byte at `i`.
pub open spec fn p_u8(s: Seq<u8>, i: int) -> Option<(u8, int)> {
    if 0 <= i && i + 1 <= s.len() {
        Some((s[i], i + 1))
    } else {
        None
    }
}

/// Reads eight little-endian bytes at `i` as an unsigned integer.
pub open spec fn p_u64(s: Seq<u8>, i: int) -> Option<(u64, int)> {
    if 0 <= i && i + 8 <= s.len() {
        Some((spec_u64_from_le_bytes(s.subrange(i, i + 8)), i + 8))
    } else {
        None
    }
}

/// Reads eight little-endian bytes at `i` as a timestamp.
pub open spec fn p_i64(s: Seq<u8>, i: int) -> Option<(i64, int)> {
    match p_u64(s, i) {
        Some((x, j)) => Some((x as i64, j)),
        None => None,
    }
}

/// Reads an identity at `i`.
pub open spec fn p_identity(s: Seq<u8>, i: int) -> Option<(Identity, int)> {
    match p_u64(s, i) {
        Some((x, j)) => Some((Identity { value: x }, j)),
        None => None,
    }
}

/// Reads a length-prefixed text field at `i`, refusing a length over `max`.
pub open spec fn p_bytes_field(s: Seq<u8>, i: int, max: int) -> Option<(Seq<u8>, int)> {
    match p_u8(s, i) {
        Some((n, j)) => if n <= max && j + n <= s.len() {
            Some((s.subrange(j, j + n), j + n))
        } else {
            None
        },
        None => None,
    }
}

/// Reads an address at `i`.
pub open spec fn p_address(s: Seq<u8>, i: int) -> Option<(Address, int)> {
    match p_u8(s, i) {
        Some((tag, j)) => if tag == 0 {
            Some((Address::Platform, j))
        } else if tag == 1 {
            match p_identity(s, j) {
                Some((id, k)) => Some((Address::Artist(id), k)),
                None => None,
            }
        } else if tag == 2 {
            match p_identity(s, j) {
                Some((id, k)) => Some((Address::Fan(id), k)),
                None => None,
            }
        } else if tag == 3 {
            match p_u8(s, j) {
                Some((n, k)) => Some((Address::Tone(n), k)),
                None => None,
            }
        } else {
            None
        },
        None => None,
    }
}

/// Reads `n` addresses at `i`, onto the accumulator `acc`.
pub open spec fn p_address_list(s: Seq<u8>, i: int, n: int, acc: Seq<Address>) -> Option<
    (Seq<Address>, int),
>
    decreases n,
{
    if n <= 0 {
        Some((acc, i))
    } else {
        match p_address(s, i) {
            Some((a, j)) => p_address_list(s, j, n - 1, acc.push(a)),
            None => None,
        }
    }
}

/// Reads `n` identities at `i`, onto the accumulator `acc`.
pub open spec fn p_identity_list(s: Seq<u8>, i: int, n: int, acc: Seq<Identity>) -> Option<
    (Seq<Identity>, int),
>
    decreases n,
{
    if n <= 0 {
        Some((acc, i))
    } else {
        match p_identity(s, i) {
            Some((a, j)) => p_identity_list(s, j, n - 1, acc.push(a)),
            None => None,
        }
    }
}

/// Reads an optional address at `i`.
pub open spec fn p_option_address(s: Seq<u8>, i: int) -> Option<(Option<Address>, int)> {
    match p_u8(s, i) {
        Some((tag, j)) => if tag == 0 {
            Some((None, j))
        } else if tag == 1 {
            match p_address(s, j) {
                Some((a, k)) => Some((Some(a), k)),
                None => None,
            }
        } else {
            None
        },
        None => None,
    }
}

/// Decodes a platform record's fields, after the discriminator.
pub open spec fn dec_operator(s: Seq<u8>) -> Option<RecordV> {
    match p_identity(s, 1) {
        Some((signer, i)) => match p_u8(s, i) {
            Some((count, j)) => if j == s.len() {
                Some(
                    RecordV::Operator(
                        MobileNetworkOperatorAccount { signer, ring_back_tones_count: count },
                    ),
                )
            } else {
                None
            },
            None => None,
        },
        None => None,
    }
}

/// Decodes an artist record's fields, after the discriminator.
pub open spec fn dec_artist(s: Seq<u8>) -> Option<RecordV> {
    match p_identity(s, 1) {
        Some((wallet, i1)) => match p_bytes_field(s, i1, ARTIST_NAME_LENGTH as int) {
            Some((name, i2)) => match p_bytes_field(s, i2, ARTIST_URL_LENGTH as int) {
                Some((url, i3)) => match p_u8(s, i3) {
                    Some((nr, i4)) => if nr <= NUMBER_OF_ALLOWED_RINGBACKTONES_SPACE {
                        match p_address_list(s, i4, nr as int, Seq::empty()) {
                            Some((refs, i5)) => match p_u8(s, i5) {
                                Some((ns, i6)) => if ns <= NUMBER_OF_ALLOWED_SUBSCRIBERS_SPACE {
                                    match p_identity_list(s, i6, ns as int, Seq::empty()) {
                                        Some((subs, i7)) => match p_u8(s, i7) {
                                            Some((sc, i8)) => match p_u64(s, i8) {
                                                Some((paid, i9)) => if i9 == s.len() {
                                                    Some(
                                                        RecordV::Artist(
                                                            MusicArtistAccountV {
                                                                artist_wallet_address: wallet,
                                                                artist_name: name,
                                                                artist_profile_url: url,
                                                                ring_back_tones: refs,
                                                                subscribers: subs,
                                                                subscriptions_count: sc,
                                                                amount_paid: paid,
                                                            },
                                                        ),
                                                    )
                                                } else {
                                                    None
                                                },
                                                None => None,
                                            },
                                            None => None,
                                        },
                                        None => None,
                                    }
                                } else {
                                    None
                                },
                                None => None,
                            },
                            None => None,
                        }
                    } else {
                        None
                    },
                    None => None,
                },
                None => None,
            },
            None => None,
        },
        None => None,
    }
}

/// Decodes a fan record's fields, after the discriminator.
pub open spec fn dec_fan(s: Seq<u8>) -> Option<RecordV> {
    match p_bytes_field(s, 1, USER_NAME_LENGTH as int) {
        Some((name, i1)) => match p_identity(s, i1) {
            Some((wallet, i2)) => match p_bytes_field(s, i2, USER_URL_LENGTH as int) {
                Some((url, i3)) => match p_option_address(s, i3) {
                    Some((rbt, i4)) => if i4 == s.len() {
                        Some(
                            RecordV::Fan(
                                MusicFanAccountV {
                                    user_name: name,
                                    user_wallet_address: wallet,
                                    user_profile_url: url,
                                    ring_back_tone: rbt,
                                },
                            ),
                        )
                    } else {
                        None
                    },
                    None => None,
                },
                None => None,
            },
            None => None,
        },
        None => None,
    }
}

/// Decodes a tone record's fields, after the discriminator.
pub open spec fn dec_tone(s: Seq<u8>) -> Option<RecordV> {
    match p_identity(s, 1) {
        Some((signer, i1)) => match p_bytes_field(s, i1, AUDIO_NAME_LENGTH as int) {
            Some((name, i2)) => match p_u8(s, i2) {
                Some((code, i3)) => match p_bytes_field(s, i3, AUDIO_URL_LENGTH as int) {
                    Some((url, i4)) => match p_u64(s, i4) {
                        Some((amount, i5)) => match p_bytes_field(
                            s,
                            i5,
                            SUBSCRIPTION_DURATION_LENGTH as int,
                        ) {
                            Some((duration, i6)) => match p_i64(s, i6) {
                                Some((time, i7)) => match p_u64(s, i7) {
                                    Some((donated, i8)) => if i8 == s.len() {
                                        Some(
                                            RecordV::Tone(
                                                RingBackToneAccountV {
                                                    signer,
                                                    music_audio_name: name,
                                                    music_audio_code: code,
                                                    music_audio_url: url,
                                                    subscription_amount: amount,
                                                    subscription_duration: duration,
                                                    creator_time: time,
                                                    amount_donated: donated,
                                                },
                                            ),
                                        )
                                    } else {
                                        None
                                    },
                                    None => None,
                                },
                                None => None,
                            },
                            None => None,
                        },
                        None => None,
                    },
                    None => None,
                },
                None => None,
            },
            None => None,
        },
        None => None,
    }
}

/// Decodes any record from its fixed-layout byte form.  The result is the
/// record whose encoding the input is, and nothing where the input encodes
/// no record within the declared caps.
pub open spec fn dec_record(s: Seq<u8>) -> Option<RecordV> {
    match p_u8(s, 0) {
        Some((tag, _)) => if tag == TAG_OPERATOR {
            dec_operator(s)
        } else if tag == TAG_ARTIST {
            dec_artist(s)
        } else if tag == TAG_FAN {
            dec_fan(s)
        } else if tag == TAG_TONE {
            dec_tone(s)
        } else {
            None
        },
        None => None,
    }
}

/// An encoded address takes at most 9 bytes, so a list of them takes at
/// most 9 bytes per element.
proof fn lemma_enc_address_list_len(s: Seq<Address>)
    ensures
        enc_address_list(s).len() <= 9 * s.len(),
    decreases s.len(),
{
    lemma_auto_spec_u64_to_from_le_bytes();
    if s.len() > 0 {
        lemma_enc_address_list_len(s.drop_first());
        assert(enc_address(s[0]).len() <= 9);
    }
}

/// An encoded identity takes exactly 8 bytes.
proof fn lemma_enc_identity_list_len(s: Seq<Identity>)
    ensures
        enc_identity_list(s).len() == 8 * s.len(),
    decreases s.len(),
{
    lemma_auto_spec_u64_to_from_le_bytes();
    if s.len() > 0 {
        lemma_enc_identity_list_len(s.drop_first());
    }
}

/// Law: the reserved storage suffices.  A record within the declared caps
/// encodes into no more than the space computed for its kind from the
/// constant field-length limits.
pub proof fn lemma_record_space_sufficient(v: RecordV)
    requires
        encodable(v),
    ensures
        enc_record(v).len() <= record_space(v),
{
    lemma_auto_spec_u64_to_from_le_bytes();
    match v {
        RecordV::Operator(_) => {},
        RecordV::Artist(a) => {
            lemma_enc_address_list_len(a.ring_back_tones);
            lemma_enc_identity_list_len(a.subscribers);
        },
        RecordV::Fan(_) => {},
        RecordV::Tone(_) => {},
    }
}

proof fn lemma_p_u64_at(s: Seq<u8>, i: int, x: u64)
    requires
        0 <= i,
        i + 8 <= s.len(),
        s.subrange(i, i + 8) == enc_u64(x),
    ensures
        p_u64(s, i) == Some((x, i + 8)),
{
    lemma_auto_spec_u64_to_from_le_bytes();
}

proof fn lemma_p_bytes_field_at(s: Seq<u8>, i: int, v: Seq<u8>, max: int)
    requires
        0 <= i,
        v.len() <= max <= 255,
        i + 1 + v.len() <= s.len(),
        s.subrange(i, i + 1 + v.len()) == enc_bytes_field(v),
    ensures
        p_bytes_field(s, i, max) == Some((v, i + 1 + v.len())),
{
    let e = enc_bytes_field(v);
    assert(s[i] == s.subrange(i, i + 1 + v.len())[0]);
    assert(s[i] == v.len() as u8);
    assert((v.len() as u8) as int == v.len());
    assert(s.subrange(i + 1, i + 1 + v.len()) =~= v) by {
        assert forall|k: int| 0 <= k < v.len() implies s.subrange(i + 1, i + 1 + v.len())[k]
            == v[k] by {
            assert(s[i + 1 + k] == s.subrange(i, i + 1 + v.len())[1 + k]);
        }
    }
}

proof fn lemma_p_address_at(s: Seq<u8>, i: int, a: Address)
    requires
        0 <= i,
        i + enc_address(a).len() <= s.len(),
        s.subrange(i, i + enc_address(a).len()) == enc_address(a),
    ensures
        p_address(s, i) == Some((a, i + enc_address(a).len())),
{
    lemma_auto_spec_u64_to_from_le_bytes();
    let e = enc_address(a);
    assert(s[i] == s.subrange(i, i + e.len())[0]);
    match a {
        Address::Platform => {},
        Address::Artist(id) => {
            assert(e.len() == 9);
            assert(s.subrange(i + 1, i + 9) =~= enc_identity(id)) by {
                assert forall|k: int| 0 <= k < 8 implies s.subrange(i + 1, i + 9)[k]
                    == enc_identity(id)[k] by {
                    assert(s[i + 1 + k] == s.subrange(i, i + 9)[1 + k]);
                }
            }
            lemma_p_u64_at(s, i + 1, id.value);
        },
        Address::Fan(id) => {
            assert(e.len() == 9);
            assert(s.subrange(i + 1, i + 9) =~= enc_identity(id)) by {
                assert forall|k: int| 0 <= k < 8 implies s.subrange(i + 1, i + 9)[k]
                    == enc_identity(id)[k] by {
                    assert(s[i + 1 + k] == s.subrange(i, i + 9)[1 + k]);
                }
            }
            lemma_p_u64_at(s, i + 1, id.value);
        },
        Address::Tone(n) => {
            assert(s[i + 1] == s.subrange(i, i + 2)[1]);
        },
    }
}

proof fn lemma_p_address_list_at(s: Seq<u8>, i: int, v: Seq<Address>, acc: Seq<Address>)
    requires
        0 <= i,
        i + enc_address_list(v).len() <= s.len(),
        s.subrange(i, i + enc_address_list(v).len()) == enc_address_list(v),
    ensures
        p_address_list(s, i, v.len() as int, acc) == Some(
            (acc + v, i + enc_address_list(v).len()),
        ),
    decreases v.len(),
{
    if v.len() == 0 {
        assert(acc + v =~= acc);
    } else {
        let e0 = enc_address(v[0]);
        let rest = enc_address_list(v.drop_first());
        let total = enc_address_list(v).len() as int;
        assert(enc_address_list(v) == e0 + rest);
        assert(s.subrange(i, i + e0.len()) =~= e0) by {
            assert forall|k: int| 0 <= k < e0.len() implies s.subrange(i, i + e0.len() as int)[k]
                == e0[k] by {
                assert(s[i + k] == s.subrange(i, i + total)[k]);
            }
        }
        lemma_p_address_at(s, i, v[0]);
        assert(s.subrange(i + e0.len(), i + total) =~= rest) by {
            assert forall|k: int| 0 <= k < rest.len() implies s.subrange(
                i + e0.len() as int,
                i + total,
            )[k] == rest[k] by {
                assert(s[i + e0.len() + k] == s.subrange(i, i + total)[e0.len() + k]);
            }
        }
        lemma_p_address_list_at(s, i + e0.len() as int, v.drop_first(), acc.push(v[0]));
        assert(acc.push(v[0]) + v.drop_first() =~= acc + v);
    }
}

proof fn lemma_p_identity_list_at(s: Seq<u8>, i: int, v: Seq<Identity>, acc: Seq<Identity>)
    requires
        0 <= i,
        i + enc_identity_list(v).len() <= s.len(),
        s.subrange(i, i + enc_identity_list(v).len()) == enc_identity_list(v),
    ensures
        p_identity_list(s, i, v.len() as int, acc) == Some(
            (acc + v, i + enc_identity_list(v).len()),
        ),
    decreases v.len(),
{
    lemma_auto_spec_u64_to_from_le_bytes();
    if v.len() == 0 {
        assert(acc + v =~= acc);
    } else {
        let e0 = enc_identity(v[0]);
        let rest = enc_identity_list(v.drop_first());
        let total = enc_identity_list(v).len() as int;
        assert(enc_identity_list(v) == e0 + rest);
        assert(s.subrange(i, i + e0.len()) =~= e0) by {
            assert forall|k: int| 0 <= k < e0.len() implies s.subrange(i, i + e0.len() as int)[k]
                == e0[k] by {
                assert(s[i + k] == s.subrange(i, i + total)[k]);
            }
        }
        lemma_p_u64_at(s, i, v[0].value);
        assert(s.subrange(i + e0.len(), i + total) =~= rest) by {
            assert forall|k: int| 0 <= k < rest.len() implies s.subrange(
                i + e0.len() as int,
                i + total,
            )[k] == rest[k] by {
                assert(s[i + e0.len() + k] == s.subrange(i, i + total)[e0.len() + k]);
            }
        }
        lemma_p_identity_list_at(s, i + e0.len() as int, v.drop_first(), acc.push(v[0]));
        assert(acc.push(v[0]) + v.drop_first() =~= acc + v);
    }
}

proof fn lemma_p_option_address_at(s: Seq<u8>, i: int, o: Option<Address>)
    requires
        0 <= i,
        i + enc_option_address(o).len() <= s.len(),
        s.subrange(i, i + enc_option_address(o).len()) == enc_option_address(o),
    ensures
        p_option_address(s, i) == Some((o, i + enc_option_address(o).len())),
{
    let e = enc_option_address(o);
    assert(s[i] == s.subrange(i, i + e.len())[0]);
    match o {
        None => {},
        Some(a) => {
            let ea = enc_address(a);
            assert(s.subrange(i + 1, i + 1 + ea.len()) =~= ea) by {
                assert forall|k: int| 0 <= k < ea.len() implies s.subrange(
                    i + 1,
                    i + 1 + ea.len() as int,
                )[k] == ea[k] by {
                    assert(s[i + 1 + k] == s.subrange(i, i + e.len() as int)[1 + k]);
                }
            }
            lemma_p_address_at(s, i + 1, a);
        },
    }
}

#[verifier::rlimit(60)]
proof fn lemma_operator_round_trip(o: MobileNetworkOperatorAccount)
    ensures
        dec_record(enc_record(RecordV::Operator(o))) == Some(RecordV::Operator(o)),
{
    lemma_auto_spec_u64_to_from_le_bytes();
    let v = RecordV::Operator(o);
    {
        {
            let s = enc_record(v);
            let p1 = seq![TAG_OPERATOR];
            let p2 = enc_identity(o.signer);
            let p3 = seq![o.ring_back_tones_count];
            assert(s == p1 + p2 + p3);
            assert(s.len() == 10);
            assert(s[0] == TAG_OPERATOR);
            assert(s.subrange(1, 9) =~= p2);
            lemma_p_u64_at(s, 1, o.signer.value);
            assert(s[9] == o.ring_back_tones_count);
        }
    }
}

#[verifier::rlimit(90)]
proof fn lemma_artist_round_trip(a: MusicArtistAccountV)
    requires
        encodable(RecordV::Artist(a)),
    ensures
        dec_record(enc_record(RecordV::Artist(a))) == Some(RecordV::Artist(a)),
{
    lemma_auto_spec_u64_to_from_le_bytes();
    let v = RecordV::Artist(a);
    {
        {
            let s = enc_record(v);
            let p1 = seq![TAG_ARTIST];
            let p2 = enc_identity(a.artist_wallet_address);
            let p3 = enc_bytes_field(a.artist_name);
            let p4 = enc_bytes_field(a.artist_profile_url);
            let p5 = seq![a.ring_back_tones.len() as u8];
            let p6 = enc_address_list(a.ring_back_tones);
            let p7 = seq![a.subscribers.len() as u8];
            let p8 = enc_identity_list(a.subscribers);
            let p9 = seq![a.subscriptions_count];
            let p10 = enc_u64(a.amount_paid);
            assert(s == p1 + p2 + p3 + p4 + p5 + p6 + p7 + p8 + p9 + p10);
            let o2 = 1int;
            let o3 = o2 + p2.len() as int;
            let o4 = o3 + p3.len() as int;
            let o5 = o4 + p4.len() as int;
            let o6 = o5 + 1;
            let o7 = o6 + p6.len() as int;
            let o8 = o7 + 1;
            let o9 = o8 + p8.len() as int;
            let o10 = o9 + 1;
            assert(s.len() == o10 + 8);
            assert(s[0] == TAG_ARTIST);
            assert(s.subrange(o2, o3) =~= p2);
            lemma_p_u64_at(s, o2, a.artist_wallet_address.value);
            assert(s.subrange(o3, o4) =~= p3);
            lemma_p_bytes_field_at(s, o3, a.artist_name, ARTIST_NAME_LENGTH as int);
            assert(s.subrange(o4, o5) =~= p4);
            lemma_p_bytes_field_at(s, o4, a.artist_profile_url, ARTIST_URL_LENGTH as int);
            assert(s[o5] == a.ring_back_tones.len() as u8);
            assert((a.ring_back_tones.len() as u8) as int == a.ring_back_tones.len());
            assert(s.subrange(o6, o7) =~= p6);
            lemma_p_address_list_at(s, o6, a.ring_back_tones, Seq::empty());
            assert(Seq::empty() + a.ring_back_tones =~= a.ring_back_tones);
            assert(s[o7] == a.subscribers.len() as u8);
            assert((a.subscribers.len() as u8) as int == a.subscribers.len());
            assert(s.subrange(o8, o9) =~= p8);
            lemma_p_identity_list_at(s, o8, a.subscribers, Seq::empty());
            assert(Seq::empty() + a.subscribers =~= a.subscribers);
            assert(s[o9] == a.subscriptions_count);
            assert(s.subrange(o10, o10 + 8) =~= p10);
            lemma_p_u64_at(s, o10, a.amount_paid);
        }
    }
}

#[verifier::rlimit(90)]
proof fn lemma_fan_round_trip(f: MusicFanAccountV)
    requires
        encodable(RecordV::Fan(f)),
    ensures
        dec_record(enc_record(RecordV::Fan(f))) == Some(RecordV::Fan(f)),
{
    lemma_auto_spec_u64_to_from_le_bytes();
    let v = RecordV::Fan(f);
    {
        {
            let s = enc_record(v);
            let p1 = seq![TAG_FAN];
            let p2 = enc_bytes_field(f.user_name);
            let p3 = enc_identity(f.user_wallet_address);
            let p4 = enc_bytes_field(f.user_profile_url);
            let p5 = enc_option_address(f.ring_back_tone);
            assert(s == p1 + p2 + p3 + p4 + p5);
            let o2 = 1int;
            let o3 = o2 + p2.len() as int;
            let o4 = o3 + 8;
            let o5 = o4 + p4.len() as int;
            assert(s.len() == o5 + p5.len());
            assert(s[0] == TAG_FAN);
            assert(s.subrange(o2, o3) =~= p2);
            lemma_p_bytes_field_at(s, o2, f.user_name, USER_NAME_LENGTH as int);
            assert(s.subrange(o3, o4) =~= p3);
            lemma_p_u64_at(s, o3, f.user_wallet_address.value);
            assert(s.subrange(o4, o5) =~= p4);
            lemma_p_bytes_field_at(s, o4, f.user_profile_url, USER_URL_LENGTH as int);
            assert(s.subrange(o5, o5 + p5.len()) =~= p5);
            lemma_p_option_address_at(s, o5, f.ring_back_tone);
        }
    }
}

#[verifier::rlimit(90)]
proof fn lemma_tone_round_trip(t: RingBackToneAccountV)
    requires
        encodable(RecordV::Tone(t)),
    ensures
        dec_record(enc_record(RecordV::Tone(t))) == Some(RecordV::Tone(t)),
{
    lemma_auto_spec_u64_to_from_le_bytes();
    let v = RecordV::Tone(t);
    {
        {
            let s = enc_record(v);
            let p1 = seq![TAG_TONE];
            let p2 = enc_identity(t.signer);
            let p3 = enc_bytes_field(t.music_audio_name);
            let p4 = seq![t.music_audio_code];
            let p5 = enc_bytes_field(t.music_audio_url);
            let p6 = enc_u64(t.subscription_amount);
            let p7 = enc_bytes_field(t.subscription_duration);
            let p8 = enc_i64(t.creator_time);
            let p9 = enc_u64(t.amount_donated);
            assert(s == p1 + p2 + p3 + p4 + p5 + p6 + p7 + p8 + p9);
            let o2 = 1int;
            let o3 = o2 + 8;
            let o4 = o3 + p3.len() as int;
            let o5 = o4 + 1;
            let o6 = o5 + p5.len() as int;
            let o7 = o6 + 8;
            let o8 = o7 + p7.len() as int;
            let o9 = o8 + 8;
            assert(s.len() == o9 + 8);
            assert(s[0] == TAG_TONE);
            assert(s.subrange(o2, o3) =~= p2);
            lemma_p_u64_at(s, o2, t.signer.value);
            assert(s.subrange(o3, o4) =~= p3);
            lemma_p_bytes_field_at(s, o3, t.music_audio_name, AUDIO_NAME_LENGTH as int);
            assert(s[o4] == t.music_audio_code);
            assert(s.subrange(o5, o6) =~= p5);
            lemma_p_bytes_field_at(s, o5, t.music_audio_url, AUDIO_URL_LENGTH as int);
            assert(s.subrange(o6, o7) =~= p6);
            lemma_p_u64_at(s, o6, t.subscription_amount);
            assert(s.subrange(o7, o8) =~= p7);
            lemma_p_bytes_field_at(
                s,
                o7,
                t.subscription_duration,
                SUBSCRIPTION_DURATION_LENGTH as int,
            );
            assert(s.subrange(o8, o9) =~= p8);
            lemma_p_u64_at(s, o8, t.creator_time as u64);
            let ct = t.creator_time;
            assert((ct as u64) as i64 == ct) by (bit_vector);
            assert(s.subrange(o9, o9 + 8) =~= p9);
            lemma_p_u64_at(s, o9, t.amount_donated);
        }
    }
}

/// Law: the codec round-trips.  Encoding any record within the declared
/// caps and decoding the bytes gives exactly the record back, every field
/// preserved.
pub proof fn lemma_record_round_trip(v: RecordV)
    requires
        encodable(v),
    ensures
        dec_record(enc_record(v)) == Some(v),
{
    match v {
        RecordV::Operator(o) => lemma_operator_round_trip(o),
        RecordV::Artist(a) => lemma_artist_round_trip(a),
        RecordV::Fan(f) => lemma_fan_round_trip(f),
        RecordV::Tone(t) => lemma_tone_round_trip(t),
    }
}

/// Reads one byte.
fn read_u8(b: &Vec<u8>, i: usize) -> (r: Option<(u8, usize)>)
    ensures
        match r {
            Some((x, j)) => p_u8(b@, i as int) == Some((x, j as int)),
            None => p_u8(b@, i as int) is None,
        },
{
    if i < b.len() {
        Some((b[i], i + 1))
    } else {
        None
    }
}

/// Reads eight little-endian bytes as an unsigned integer.
fn read_u64(b: &Vec<u8>, i: usize) -> (r: Option<(u64, usize)>)
    ensures
        match r {
            Some((x, j)) => p_u64(b@, i as int) == Some((x, j as int)),
            None => p_u64(b@, i as int) is None,
        },
{
    if i <= b.len() && b.len() - i >= 8 {
        let x = u64_from_le_bytes(slice_subrange(b.as_slice(), i, i + 8));
        Some((x, i + 8))
    } else {
        None
    }
}

/// Reads an identity.
fn read_identity(b: &Vec<u8>, i: usize) -> (r: Option<(Identity, usize)>)
    ensures
        match r {
            Some((x, j)) => p_identity(b@, i as int) == Some((x, j as int)),
            None => p_identity(b@, i as int) is None,
        },
{
    match read_u64(b, i) {
        Some((x, j)) => Some((Identity { value: x }, j)),
        None => None,
    }
}

/// Reads a length-prefixed text field, refusing a length over `max`.
fn read_bytes_field(b: &Vec<u8>, i: usize, max: usize) -> (r: Option<(Vec<u8>, usize)>)
    ensures
        match r {
            Some((v, j)) => p_bytes_field(b@, i as int, max as int) == Some((v@, j as int)),
            None => p_bytes_field(b@, i as int, max as int) is None,
        },
{
    match read_u8(b, i) {
        Some((n, j)) => {
            if n as usize <= max && n as usize <= b.len() - j {
                let v = slice_to_vec(slice_subrange(b.as_slice(), j, j + n as usize));
                Some((v, j + n as usize))
            } else {
                None
            }
        },
        None => None,
    }
}

/// Reads an address.
fn read_address(b: &Vec<u8>, i: usize) -> (r: Option<(Address, usize)>)
    ensures
        match r {
            Some((x, j)) => p_address(b@, i as int) == Some((x, j as int)),
            None => p_address(b@, i as int) is None,
        },
{
    match read_u8(b, i) {
        Some((tag, j)) => {
            if tag == 0 {
                Some((Address::Platform, j))
            } else if tag == 1 {
                match read_identity(b, j) {
                    Some((id, k)) => Some((Address::Artist(id), k)),
                    None => None,
                }
            } else if tag == 2 {
                match read_identity(b, j) {
                    Some((id, k)) => Some((Address::Fan(id), k)),
                    None => None,
                }
            } else if tag == 3 {
                match read_u8(b, j) {
                    Some((n, k)) => Some((Address::Tone(n), k)),
                    None => None,
                }
            } else {
                None
            }
        },
        None => None,
    }
}

/// Reads `n` addresses.
fn read_address_list(b: &Vec<u8>, i: usize, n: u8) -> (r: Option<(Vec<Address>, usize)>)
    ensures
        match r {
            Some((v, j)) => p_address_list(b@, i as int, n as int, Seq::empty()) == Some(
                (v@, j as int),
            ),
            None => p_address_list(b@, i as int, n as int, Seq::empty()) is None,
        },
{
    let mut acc: Vec<Address> = Vec::new();
    let mut cur: usize = i;
    let mut k: u8 = 0;
    while k < n
        invariant
            0 <= k <= n,
            p_address_list(b@, i as int, n as int, Seq::empty()) == p_address_list(
                b@,
                cur as int,
                n as int - k as int,
                acc@,
            ),
        decreases n - k,
    {
        match read_address(b, cur) {
            Some((a, j)) => {
                acc.push(a);
                cur = j;
                k = k + 1;
            },
            None => {
                return None;
            },
        }
    }
    Some((acc, cur))
}

/// Reads `n` identities.
fn read_identity_list(b: &Vec<u8>, i: usize, n: u8) -> (r: Option<(Vec<Identity>, usize)>)
    ensures
        match r {
            Some((v, j)) => p_identity_list(b@, i as int, n as int, Seq::empty()) == Some(
                (v@, j as int),
            ),
            None => p_identity_list(b@, i as int, n as int, Seq::empty()) is None,
        },
{
    let mut acc: Vec<Identity> = Vec::new();
    let mut cur: usize = i;
    let mut k: u8 = 0;
    while k < n
        invariant
            0 <= k <= n,
            p_identity_list(b@, i as int, n as int, Seq::empty()) == p_identity_list(
                b@,
                cur as int,
                n as int - k as int,
                acc@,
            ),
        decreases n - k,
    {
        match read_identity(b, cur) {
            Some((a, j)) => {
                acc.push(a);
                cur = j;
                k = k + 1;
            },
            None => {
                return None;
            },
        }
    }
    Some((acc, cur))
}

/// Reads an optional address.
fn read_option_address(b: &Vec<u8>, i: usize) -> (r: Option<(Option<Address>, usize)>)
    ensures
        match r {
            Some((x, j)) => p_option_address(b@, i as int) == Some((x, j as int)),
            None => p_option_address(b@, i as int) is None,
        },
{
    match read_u8(b, i) {
        Some((tag, j)) => {
            if tag == 0 {
                Some((None, j))
            } else if tag == 1 {
                match read_address(b, j) {
                    Some((a, k)) => Some((Some(a), k)),
                    None => None,
                }
            } else {
                None
            }
        },
        None => None,
    }
}

/// Decodes a record from its fixed-layout byte form.
pub fn decode_record(b: &Vec<u8>) -> (r: Option<Record>)
    ensures
        match r {
            Some(rec) => dec_record(b@) == Some(rec@),
            None => dec_record(b@) is None,
        },
{
    let (tag, _) = match read_u8(b, 0) {
        Some(p) => p,
        None => {
            return None;
        },
    };
    if tag == TAG_OPERATOR {
        let (signer, i) = match read_identity(b, 1) {
            Some(p) => p,
            None => {
                return None;
            },
        };
        let (count, j) = match read_u8(b, i) {
            Some(p) => p,
            None => {
                return None;
            },
        };
        if j == b.len() {
            Some(
                Record::Operator(
                    MobileNetworkOperatorAccount { signer, ring_back_tones_count: count },
                ),
            )
        } else {
            None
        }
    } else if tag == TAG_ARTIST {
        let (wallet, i1) = match read_identity(b, 1) {
            Some(p) => p,
            None => {
                return None;
            },
        };
        let (name, i2) = match read_bytes_field(b, i1, ARTIST_NAME_LENGTH) {
            Some(p) => p,
            None => {
                return None;
            },
        };
        let (url, i3) = match read_bytes_field(b, i2, ARTIST_URL_LENGTH) {
            Some(p) => p,
            None => {
                return None;
            },
        };
        let (nr, i4) = match read_u8(b, i3) {
            Some(p) => p,
            None => {
                return None;
            },
        };
        if nr as usize > NUMBER_OF_ALLOWED_RINGBACKTONES_SPACE {
            return None;
        }
        let (refs, i5) = match read_address_list(b, i4, nr) {
            Some(p) => p,
            None => {
                return None;
            },
        };
        let (ns, i6) = match read_u8(b, i5) {
            Some(p) => p,
            None => {
                return None;
            },
        };
        if ns as usize > NUMBER_OF_ALLOWED_SUBSCRIBERS_SPACE {
            return None;
        }
        let (subs, i7) = match read_identity_list(b, i6, ns) {
            Some(p) => p,
            None => {
                return None;
            },
        };
        let (sc, i8) = match read_u8(b, i7) {
            Some(p) => p,
            None => {
                return None;
            },
        };
        let (paid, i9) = match read_u64(b, i8) {
            Some(p) => p,
            None => {
                return None;
            },
        };
        if i9 == b.len() {
            Some(
                Record::Artist(
                    MusicArtistAccount {
                        artist_wallet_address: wallet,
                        artist_name: name,
                        artist_profile_url: url,
                        ring_back_tones: refs,
                        subscribers: subs,
                        subscriptions_count: sc,
                        amount_paid: paid,
                    },
                ),
            )
        } else {
            None
        }
    } else if tag == TAG_FAN {
        let (name, i1) = match read_bytes_field(b, 1, USER_NAME_LENGTH) {
            Some(p) => p,
            None => {
                return None;
            },
        };
        let (wallet, i2) = match read_identity(b, i1) {
            Some(p) => p,
            None => {
                return None;
            },
        };
        let (url, i3) = match read_bytes_field(b, i2, USER_URL_LENGTH) {
            Some(p) => p,
            None => {
                return None;
            },
        };
        let (rbt, i4) = match read_option_address(b, i3) {
            Some(p) => p,
            None => {
                return None;
            },
        };
        if i4 == b.len() {
            Some(
                Record::Fan(
                    MusicFanAccount {
                        user_name: name,
                        user_wallet_address: wallet,
                        user_profile_url: url,
                        ring_back_tone: rbt,
                    },
                ),
            )
        } else {
            None
        }
    } else if tag == TAG_TONE {
        let (signer, i1) = match read_identity(b, 1) {
            Some(p) => p,
            None => {
                return None;
            },
        };
        let (name, i2) = match read_bytes_field(b, i1, AUDIO_NAME_LENGTH) {
            Some(p) => p,
            None => {
                return None;
            },
        };
        let (code, i3) = match read_u8(b, i2) {
            Some(p) => p,
            None => {
                return None;
            },
        };
        let (url, i4) = match read_bytes_field(b, i3, AUDIO_URL_LENGTH) {
            Some(p) => p,
            None => {
                return None;
            },
        };
        let (amount, i5) = match read_u64(b, i4) {
            Some(p) => p,
            None => {
                return None;
            },
        };
        let (duration, i6) = match read_bytes_field(b, i5, SUBSCRIPTION_DURATION_LENGTH) {
            Some(p) => p,
            None => {
                return None;
            },
        };
        let (time, i7) = match read_u64(b, i6) {
            Some(p) => p,
            None => {
                return None;
            },
        };
        let (donated, i8) = match read_u64(b, i7) {
            Some(p) => p,
            None => {
                return None;
            },
        };
        if i8 == b.len() {
            Some(
                Record::Tone(
                    RingBackToneAccount {
                        signer,
                        music_audio_name: name,
                        music_audio_code: code,
                        music_audio_url: url,
                        subscription_amount: amount,
                        subscription_duration: duration,
                        creator_time: time as i64,
                        amount_donated: donated,
                    },
                ),
            )
        } else {
            None
        }
    } else {
        None
    }
}

} // verus!
