//! A caller's identity: the public identifier under which a caller acts.
//!
//! The ledger's own keys are opaque byte strings; the logic reads nothing of
//! them but equality and their use as an address-derivation seed, so the
//! library holds an identity as one plain unsigned integer.

use vstd::prelude::*;

verus! {

/// A caller's public identifier.  Used as an access-control subject and as a
/// key-derivation input; the library compares identities only for equality.
#[derive(Clone, Copy, Debug, PartialEq, Eq, Structural)]
pub struct Identity {
    pub value: u64,
}

impl Identity {
    /// Wraps a plain integer as an identity.
    pub fn new(value: u64) -> (r: Identity)
        ensures
            r.value == value,
    {
        Identity { value }
    }
}

} // verus!
