//! The system clock.

use vstd::prelude::*;
use std::time::{Duration, SystemTime, SystemTimeError};

verus! {

/// `std::time::SystemTime`: a moment on the system clock. Nothing is known
/// of its inside.
#[verifier::external_type_specification]
#[verifier::external_body]
pub struct ExSystemTime(SystemTime);

/// `std::time::SystemTimeError`: the error of a moment that lies before the
/// one it was measured from.
#[verifier::external_type_specification]
#[verifier::external_body]
pub struct ExSystemTimeError(SystemTimeError);

/// `SystemTime::now` reads the system clock. Nothing is claimed of the
/// moment that it returns.
pub assume_specification[ SystemTime::now ]() -> (moment: SystemTime);

/// `Duration::as_secs` gives the whole seconds of a duration. Nothing more
/// is claimed of the number.
pub assume_specification[ Duration::as_secs ](d: &Duration) -> (secs: u64);

/// `SystemTime::duration_since`, measured from the epoch: the time from the
/// epoch to the given moment, or an error where the moment lies before the
/// epoch.
#[verifier::external_body]
fn since_epoch(moment: &SystemTime) -> (elapsed: Result<Duration, SystemTimeError>) {
    moment.duration_since(std::time::UNIX_EPOCH)
}

/// The whole seconds from the epoch to this moment on the system clock, or
/// zero where the clock stands before the epoch.
pub fn now_unix_secs() -> (secs: u64) {
    let moment = SystemTime::now();
    seconds_or_epoch(match since_epoch(&moment) {
        Ok(elapsed) => Some(elapsed.as_secs()),
        Err(_) => None,
    })
}

/// The seconds since the epoch as a signed number, as the presence broker
/// takes them. A clock beyond the range of `i64` reads as its largest value.
pub fn now_secs() -> (r: i64)
    ensures
        r >= 0,
{
    crate::activity::seconds_offset(now_unix_secs())
}

/// What a reading of the clock counts as: the whole seconds that have
/// passed since the epoch, or zero for a clock that stands before it.
pub open spec fn seconds_or_epoch_of(elapsed: Option<u64>) -> u64 {
    match elapsed {
        Some(secs) => secs,
        None => 0,
    }
}

/// Turns what the clock gave into seconds since the epoch: the seconds that
/// passed where it gave any, zero where it stands before the epoch.
pub fn seconds_or_epoch(elapsed: Option<u64>) -> (secs: u64)
    ensures
        secs == seconds_or_epoch_of(elapsed),
{
    match elapsed {
        Some(secs) => secs,
        None => 0,
    }
}

} // verus!
