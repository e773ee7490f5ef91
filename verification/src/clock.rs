//! Reading the wall clock.

use vstd::prelude::*;

verus! {

/// Seconds since the Unix epoch, from `SystemTime::now().duration_since(UNIX_EPOCH)`,
/// or `None` when the clock is set before 1970 (the call's error, mapped with `ok`).
/// Nothing is claimed of the value: it is whatever the machine's clock says.
#[verifier::external_body]
fn system_time_secs() -> Option<u64> {
    std::time::SystemTime::now().duration_since(std::time::UNIX_EPOCH).ok().map(|d| d.as_secs())
}

/// Milliseconds since the Unix epoch, from `SystemTime::now().duration_since(UNIX_EPOCH)`
/// cut to 64 bits as `as u64` does, or `None` when the clock is set before 1970.
/// Nothing is claimed of the value.
#[verifier::external_body]
fn system_time_millis() -> Option<u64> {
    std::time::SystemTime::now().duration_since(std::time::UNIX_EPOCH).ok().map(|d| d.as_millis() as u64)
}

/// Seconds since the Unix epoch; a clock set before 1970 reads as 0.
pub fn unix_time_secs() -> u64 {
    match system_time_secs() {
        Some(t) => t,
        None => 0,
    }
}

/// Milliseconds since the Unix epoch; a clock set before 1970 reads as 0.
pub fn unix_time_millis() -> u64 {
    match system_time_millis() {
        Some(t) => t,
        None => 0,
    }
}

} // verus!
