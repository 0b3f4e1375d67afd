//! The validation layer: stateless per-field constraint checks, applied by
//! every handler before any store mutation.

use vstd::prelude::*;

verus! {

/// Whether a byte is ASCII whitespace (space, tab, line feed, form feed or
/// carriage return).
pub open spec fn is_space(b: u8) -> bool {
    b == 32 || b == 9 || b == 10 || b == 12 || b == 13
}

/// Whether a text field is blank: empty, or made of whitespace alone.
/// A blank field counts as missing data.
pub open spec fn blank(s: Seq<u8>) -> bool {
    forall|i: int| 0 <= i < s.len() ==> is_space(#[trigger] s[i])
}

/// The verdict of a text-field check.
#[derive(Clone, Copy, Debug, PartialEq, Eq, Structural)]
pub enum TextCheck {
    /// The field is non-blank and within its byte cap.
    Valid,
    /// The field is empty or all whitespace.
    EmptyField,
    /// The field is longer than its byte cap.
    ExceededMaxLength,
}

/// Checks a text field: blank fields are reported first, then fields over
/// the byte cap `max_len`.
pub fn validate_text(value: &Vec<u8>, max_len: usize) -> (r: TextCheck)
    ensures
        r == (if blank(value@) {
            TextCheck::EmptyField
        } else if value@.len() > max_len {
            TextCheck::ExceededMaxLength
        } else {
            TextCheck::Valid
        }),
{
    let mut i: usize = 0;
    let mut all_space: bool = true;
    while i < value.len()
        invariant
            0 <= i <= value@.len(),
            all_space == forall|j: int| 0 <= j < i ==> is_space(#[trigger] value@[j]),
        decreases value@.len() - i,
    {
        let b = value[i];
        if !(b == 32 || b == 9 || b == 10 || b == 12 || b == 13) {
            all_space = false;
        }
        i = i + 1;
    }
    if all_space {
        TextCheck::EmptyField
    } else if value.len() > max_len {
        TextCheck::ExceededMaxLength
    } else {
        TextCheck::Valid
    }
}

/// Checks that a numeric amount or code is strictly positive.
pub fn validate_positive(value: u64) -> (r: bool)
    ensures
        r == (value > 0),
{
    value > 0
}

} // verus!
