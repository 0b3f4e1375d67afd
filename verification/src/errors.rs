//! The error taxonomy.  Every failure of a state transition carries one of
//! these discriminants; a failed transition leaves the store untouched.

use vstd::prelude::*;

verus! {

/// One typed failure of a state transition.
///
/// The first group is input validation, the second business-rule conflicts,
/// the third capacity and uniqueness violations surfaced by the entity store.
#[derive(Clone, Copy, Debug, PartialEq, Eq, Structural)]
pub enum Errors {
    /// A sign-up field that must not be empty is empty (or all whitespace).
    CannotSignUpUser,
    /// An upload field that must not be empty is empty (or all whitespace).
    CannotUploadAudio,
    /// A name field is longer than its byte cap.
    ExceededNameMaxLength,
    /// A duration label is longer than its byte cap.
    ExceededSubscriptionDurationMaxLength,
    /// A profile URL is longer than its byte cap.
    ExceededUserUrlMaxLength,
    /// An audio name is longer than its byte cap.
    ExceededAudioMaxLength,
    /// An audio URL is longer than its byte cap.
    ExceededAudioUrlMaxLength,
    /// An amount that must be strictly positive is zero.
    AmountNotgreaterThanZero,
    /// An audio classification code that must be strictly positive is zero.
    InvalidAudioCode,
    /// The caller already stands in this artist's subscriber set.
    UserSubscribedAudio,
    /// The tone reference already stands in this artist's owned-tone list.
    CannotAddRingbackTone,
    /// The paid amount equals the tone's subscription price.
    ExceededTargetAmount,
    /// A record already exists at the derived address.
    AccountAlreadyExists,
    /// No record exists at the derived address.
    AccountNotFound,
    /// The platform record has not been created yet.
    PlatformNotInitialized,
    /// A bounded per-artist collection is at its reserved capacity.
    CollectionFull,
    /// A counter or accumulator cannot take the step without overflowing.
    NumericOverflow,
}

} // verus!
