//! The constant field limits of the platform: byte caps on the text fields
//! and the fixed capacity that each per-artist collection is reserved with.

use vstd::prelude::*;

verus! {

/// Byte cap on an artist's display name.
pub const ARTIST_NAME_LENGTH: usize = 20;

/// Byte cap on a fan's display name.
pub const USER_NAME_LENGTH: usize = 20;

/// Byte cap on a tone's audio name.
pub const AUDIO_NAME_LENGTH: usize = 20;

/// Byte cap on a tone's subscription-duration label.
pub const SUBSCRIPTION_DURATION_LENGTH: usize = 10;

/// Byte cap on an artist's profile URL.
pub const ARTIST_URL_LENGTH: usize = 255;

/// Byte cap on a fan's profile URL.
pub const USER_URL_LENGTH: usize = 255;

/// Byte cap on a tone's audio URL.
pub const AUDIO_URL_LENGTH: usize = 255;

/// Capacity reserved for an artist's owned-tone references.
pub const NUMBER_OF_ALLOWED_RINGBACKTONES_SPACE: usize = 5;

/// Capacity reserved for an artist's subscriber set.
pub const NUMBER_OF_ALLOWED_SUBSCRIBERS_SPACE: usize = 5;

} // verus!
