//! The wall clock, in whole seconds since the Unix epoch.

use vstd::prelude::*;
use std::time::Duration;
use std::time::SystemTime;
use std::time::SystemTimeError;

verus! {

#[verifier::external_type_specification]
#[verifier::external_body]
pub struct ExSystemTime(SystemTime);

#[verifier::external_type_specification]
#[verifier::external_body]
pub struct ExSystemTimeError(SystemTimeError);

/// `SystemTime::now`: the clock's current reading. Nothing is claimed of it.
#[verifier::external_body]
fn system_time_now() -> SystemTime {
    SystemTime::now()
}

/// `SystemTime::duration_since(UNIX_EPOCH)`: how long after the epoch `t` lies, or an error
/// when it lies before. Nothing is claimed of the outcome.
#[verifier::external_body]
fn duration_since_epoch(t: &SystemTime) -> Result<Duration, SystemTimeError> {
    t.duration_since(std::time::UNIX_EPOCH)
}

/// `Duration::as_secs`: the whole seconds of `d`. Nothing is claimed of the value.
#[verifier::external_body]
fn duration_as_secs(d: &Duration) -> u64 {
    d.as_secs()
}

/// Whole seconds since the Unix epoch from how long after it the clock reads: the seconds
/// when the reading lies after the epoch (`Some`), 0 when it lies before (`None`).
pub fn seconds_since_epoch(elapsed_seconds: Option<u64>) -> (r: u64)
    ensures
        r == match elapsed_seconds {
            Some(s) => s,
            None => 0,
        },
{
    match elapsed_seconds {
        Some(s) => s,
        None => 0,
    }
}

/// The current time in whole seconds since the Unix epoch, or 0 when the clock reads a time
/// before the epoch, as `seconds_since_epoch` decides. The value comes from the clock:
/// nothing is claimed of it.
pub fn get_current_time_in_seconds() -> u64 {
    let now = system_time_now();
    let elapsed = match duration_since_epoch(&now) {
        Ok(d) => Some(duration_as_secs(&d)),
        Err(_) => None,
    };
    seconds_since_epoch(elapsed)
}

} // verus!
