//! Calls into outside crates whose results depend on the clock or on chance.
use vstd::prelude::*;

verus! {

/// A fresh identifier, never the nil one.
pub(crate) fn new_identifier() -> (r: u128)
    ensures
        r != 0,
{
    let r = fresh_id();
    assert(r != 0) by (bit_vector)
        requires
            r & 0x4000_8000_0000_0000_0000u128 == 0x4000_8000_0000_0000_0000u128,
    ;
    r
}

/// Relies on `chrono::Utc::now` and `DateTime::timestamp`: the current time
/// as whole seconds since the Unix epoch. Nothing is known of the value; it
/// panics only where the system clock reads before the epoch.
#[verifier::external_body]
pub(crate) fn now_timestamp() -> (r: i64) {
    chrono::Utc::now().timestamp()
}

/// Relies on `uuid::Uuid::new_v4` and `Uuid::as_u128`: a random version-4
/// identifier, as its 128-bit integer. Its version bits are set to 4 and its
/// variant bits to the RFC 4122 variant, so it is never the nil identifier;
/// the rest is random. It panics only where the system's random source fails.
#[verifier::external_body]
pub(crate) fn fresh_id() -> (r: u128)
    ensures
        r & 0x4000_8000_0000_0000_0000 == 0x4000_8000_0000_0000_0000,
{
    uuid::Uuid::new_v4().as_u128()
}

} // verus!
