//! The system clock, the one source of the current time.
use vstd::prelude::*;
use std::time::{Duration, SystemTime, SystemTimeError};

verus! {

/// A moment of the system clock (`std::time::SystemTime`), carried through opaquely.
#[verifier::external_type_specification]
#[verifier::external_body]
pub struct ExSystemTime(std::time::SystemTime);

/// The error of a clock reading before the Unix epoch (`std::time::SystemTimeError`).
#[verifier::external_type_specification]
#[verifier::external_body]
pub struct ExSystemTimeError(std::time::SystemTimeError);

/// Calls `SystemTime::now`. Nothing is promised of the value: it is the time.
#[verifier::external_body]
fn system_now() -> (r: SystemTime) {
    SystemTime::now()
}

/// Calls `SystemTime::duration_since(UNIX_EPOCH)`: the time since the epoch,
/// or an error when `t` lies before it. Nothing is promised of which.
#[verifier::external_body]
fn since_epoch(t: &SystemTime) -> (r: Result<Duration, SystemTimeError>) {
    t.duration_since(std::time::UNIX_EPOCH)
}

/// Calls `Duration::as_secs`: the whole seconds of `d`. The duration is opaque
/// here, so nothing is promised of the value.
#[verifier::external_body]
fn whole_secs(d: &Duration) -> (r: u64) {
    d.as_secs()
}

/// Reads the system clock: whole seconds since the Unix epoch, or `None` when
/// the clock stands before the epoch. Nothing is promised of the value.
pub(crate) fn clock_secs() -> (r: Option<u64>) {
    let now = system_now();
    match since_epoch(&now) {
        Ok(d) => Some(whole_secs(&d)),
        Err(_) => None,
    }
}

} // verus!
