//! Reading the system clock.
use vstd::prelude::*;
use std::time::{Duration, SystemTimeError};

verus! {

#[verifier::external_type_specification]
#[verifier::external_body]
pub struct ExSystemTimeError(SystemTimeError);

/// Calls `SystemTime::elapsed` on `UNIX_EPOCH`: the time from the epoch to
/// now, or an error when the clock is set before the epoch. It depends on
/// the clock and nothing is stated of it.
#[verifier::external_body]
fn since_epoch() -> (r: Result<Duration, SystemTimeError>) {
    std::time::UNIX_EPOCH.elapsed()
}

/// Calls `SystemTimeError::duration`: how far the clock is before the epoch.
#[verifier::external_body]
fn before_epoch(e: &SystemTimeError) -> (r: Duration) {
    e.duration()
}

/// Calls `Duration::as_secs`: the whole seconds of a duration.
#[verifier::external_body]
fn whole_seconds(d: &Duration) -> (r: u64) {
    d.as_secs()
}

/// Reads the system clock: the whole seconds since the Unix epoch, or, when
/// the clock is set before the epoch, the whole seconds before it.
pub(crate) fn seconds_since_epoch() -> (r: Result<u64, u64>) {
    match since_epoch() {
        Ok(d) => Ok(whole_seconds(&d)),
        Err(e) => Err(whole_seconds(&before_epoch(&e))),
    }
}

} // verus!
