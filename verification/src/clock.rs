//! Wall-clock readings for the rate limiters.
//!
//! The verified rate-limit logic takes a timestamp as an argument; these
//! wrappers only produce the current reading. Nothing is assumed of the
//! values they return.

use vstd::prelude::*;

verus! {

/// Relies on `std::time::SystemTime::now` and
/// `SystemTime::duration_since(UNIX_EPOCH)`: milliseconds since the Unix
/// epoch, or 0 when the clock reads before the epoch. No two calls are
/// assumed to agree.
#[verifier::external_body]
pub fn now_millis() -> u64 {
    std::time::SystemTime::now()
        .duration_since(std::time::UNIX_EPOCH)
        .map(|d| d.as_millis() as u64)
        .unwrap_or(0)
}

/// Relies on `std::time::SystemTime::now` and
/// `SystemTime::duration_since(UNIX_EPOCH)`: seconds since the Unix
/// epoch, or 0 when the clock reads before the epoch. No two calls are
/// assumed to agree.
#[verifier::external_body]
pub fn now_secs() -> u64 {
    std::time::SystemTime::now()
        .duration_since(std::time::UNIX_EPOCH)
        .map(|d| d.as_secs())
        .unwrap_or(0)
}

/// Relies on `uuid::Uuid::new_v4` and its `Display`: a freshly drawn
/// random identifier, rendered in the hyphenated form, prefixed with
/// `gen-`. The value is random; nothing is assumed of it.
#[verifier::external_body]
pub fn fresh_message_id() -> String {
    format!("gen-{}", uuid::Uuid::new_v4())
}

} // verus!
