//! The wall clock, read in unix time.

use vstd::prelude::*;

verus! {

/// Current unix time in seconds, zero if the clock is before the epoch.
///
/// Trusted: reads `std::time::SystemTime::now` and its distance from
/// `UNIX_EPOCH`. Nothing is promised of the value: it is the time.
#[verifier::external_body]
pub fn now_secs() -> u64 {
    std::time::SystemTime::now()
        .duration_since(std::time::UNIX_EPOCH)
        .map(|d| d.as_secs())
        .unwrap_or(0)
}

/// Current unix time in nanoseconds, zero if the clock is before the epoch.
///
/// Trusted: reads `std::time::SystemTime::now` as `now_secs` does, in
/// nanoseconds, truncated to 64 bits. Nothing is promised of the value.
#[verifier::external_body]
pub fn now_ns() -> u64 {
    std::time::SystemTime::now()
        .duration_since(std::time::UNIX_EPOCH)
        .map(|d| d.as_nanos() as u64)
        .unwrap_or(0)
}

} // verus!
