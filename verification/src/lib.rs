//! A ring-back-tone marketplace, modelled as a verified state machine.
//!
//! Mobile-network operators register a platform instance, music artists and
//! fans register profiles, artists upload ring-back-tones with a subscription
//! price, and fans subscribe by paying that price.  The library holds the
//! account model, the fixed-layout record codec, the deterministic address
//! derivation, the stateless field validation and the five state-transition
//! handlers; the ledger that persists accounts, moves funds and supplies the
//! clock is the host's, and stands outside the library.

pub mod limits;
pub mod errors;
pub mod identity;
pub mod address;
pub mod validation;
pub mod records;
pub mod codec;
pub mod store;
pub mod handlers;
