//! The current time, in seconds since the Unix epoch.

use vstd::prelude::*;
use std::time::{Duration, SystemTime};

verus! {

/// `std::time::SystemTime`, carried through opaquely.
#[verifier::external_type_specification]
#[verifier::external_body]
pub struct ExSystemTime(SystemTime);

/// Calls `SystemTime::now`. The result is the clock's reading; nothing is
/// stated of it.
#[verifier::external_body]
fn system_now() -> SystemTime {
    SystemTime::now()
}

/// Calls `SystemTime::duration_since` with the Unix epoch; an error (a
/// clock before the epoch) becomes `None`. Nothing is stated of the
/// duration, which depends on the clock.
#[verifier::external_body]
fn elapsed_since_epoch(t: &SystemTime) -> Option<Duration> {
    t.duration_since(std::time::UNIX_EPOCH).ok()
}

/// Calls `Duration::as_secs`. Nothing is stated of the result, which
/// depends on the opaque duration.
#[verifier::external_body]
fn whole_seconds(d: &Duration) -> u64 {
    d.as_secs()
}

/// The timestamp for a reading of the clock: its whole seconds since the
/// epoch taken as an `i64` (wrapping, as `as` does), or zero for a clock
/// that reads before the epoch.
pub open spec fn timestamp_of(seconds: Option<u64>) -> i64 {
    match seconds {
        Some(s) => s as i64,
        None => 0,
    }
}

/// The timestamp for a reading of the clock.
pub fn unix_timestamp_from(seconds: Option<u64>) -> (r: i64)
    ensures
        r == timestamp_of(seconds),
{
    match seconds {
        Some(s) => s as i64,
        None => 0,
    }
}

/// The current time in whole seconds since the Unix epoch, or zero when the
/// clock reads before the epoch. The value depends on the clock; it is
/// `unix_timestamp_from` of the clock's reading.
pub fn current_unix_timestamp() -> i64 {
    let now = system_now();
    let seconds = match elapsed_since_epoch(&now) {
        Some(d) => Some(whole_seconds(&d)),
        None => None,
    };
    unix_timestamp_from(seconds)
}

} // verus!
