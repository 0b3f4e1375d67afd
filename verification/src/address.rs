//! Address derivation: the deterministic mapping from a namespace tag and a
//! discriminating key to the storage slot of a record.
//!
//! Each entity lives at the address derived from its namespace and its key:
//! the platform singleton at the one platform address, each profile at the
//! address derived from its owning identity, and each tone at the address
//! derived from the sequence number it was uploaded under.  Two derivations
//! from the same inputs always give the same address, and derivations from
//! distinct inputs always give distinct addresses, which is what makes
//! "create once per key" and "re-locate for mutation" possible without a
//! secondary index.

use vstd::prelude::*;
use crate::identity::Identity;

verus! {

/// A derived storage address: a namespace tag together with the
/// discriminating key of that namespace.
#[derive(Clone, Copy, Debug, PartialEq, Eq, Structural)]
pub enum Address {
    /// The singleton platform record's address.
    Platform,
    /// The address of the artist profile owned by an identity.
    Artist(Identity),
    /// The address of the fan profile owned by an identity.
    Fan(Identity),
    /// The address of the tone uploaded under a sequence number.
    Tone(u8),
}

/// The address of the platform singleton.
pub open spec fn platform_address() -> Address {
    Address::Platform
}

/// The address of the artist profile owned by `id`.
pub open spec fn artist_address(id: Identity) -> Address {
    Address::Artist(id)
}

/// The address of the fan profile owned by `id`.
pub open spec fn fan_address(id: Identity) -> Address {
    Address::Fan(id)
}

/// The address of the tone uploaded under sequence number `n`.
pub open spec fn tone_address(n: u8) -> Address {
    Address::Tone(n)
}

/// Derives the platform singleton's address.
pub fn derive_platform_address() -> (r: Address)
    ensures
        r == platform_address(),
{
    Address::Platform
}

/// Derives the address of the artist profile owned by `id`.
pub fn derive_artist_address(id: Identity) -> (r: Address)
    ensures
        r == artist_address(id),
{
    Address::Artist(id)
}

/// Derives the address of the fan profile owned by `id`.
pub fn derive_fan_address(id: Identity) -> (r: Address)
    ensures
        r == fan_address(id),
{
    Address::Fan(id)
}

/// Derives the address of the tone uploaded under sequence number `n`.
/// The handler that uploads a tone calls this on the platform's current
/// tone count, so tone addresses are assigned in strict creation order.
pub fn derive_tone_address(n: u8) -> (r: Address)
    ensures
        r == tone_address(n),
{
    Address::Tone(n)
}

/// Law: address derivation is injective.  Within each namespace, distinct
/// keys derive distinct addresses — in particular the tone address is a
/// deterministic function of the sequence number alone, and distinct
/// sequence numbers never share an address — and no two namespaces ever
/// share an address.
pub proof fn lemma_address_derivation_injective()
    ensures
        forall|n1: u8, n2: u8| tone_address(n1) == tone_address(n2) ==> n1 == n2,
        forall|i1: Identity, i2: Identity| artist_address(i1) == artist_address(i2) ==> i1 == i2,
        forall|i1: Identity, i2: Identity| fan_address(i1) == fan_address(i2) ==> i1 == i2,
        forall|i1: Identity, i2: Identity| artist_address(i1) != fan_address(i2),
        forall|i: Identity, n: u8| artist_address(i) != tone_address(n) && fan_address(i) != tone_address(n),
        forall|i: Identity, n: u8|
            platform_address() != artist_address(i) && platform_address() != fan_address(i)
                && platform_address() != tone_address(n),
{
}

} // verus!
