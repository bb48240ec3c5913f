use std::time::{Duration, SystemTime, SystemTimeError, UNIX_EPOCH};
use vstd::prelude::*;

verus! {

#[verifier::external_type_specification]
#[verifier::external_body]
pub struct ExSystemTime(SystemTime);

#[verifier::external_type_specification]
#[verifier::external_body]
pub struct ExSystemTimeError(SystemTimeError);

/// `SystemTime::now`: what the system clock reads at the moment of the call.
/// Nothing is claimed of the reading.
#[verifier::external_body]
fn system_now() -> SystemTime {
    SystemTime::now()
}

/// `SystemTime::duration_since`, measured from `UNIX_EPOCH`: the time that
/// lies between the epoch and `t`, or an error when `t` lies before the epoch.
/// Nothing is claimed of either.
#[verifier::external_body]
fn since_epoch(t: &SystemTime) -> Result<Duration, SystemTimeError> {
    t.duration_since(UNIX_EPOCH)
}

/// `Duration::as_millis`: the whole milliseconds in `d`. Nothing is claimed
/// of the number.
#[verifier::external_body]
fn whole_millis(d: &Duration) -> u128 {
    d.as_millis()
}

/// Brings a reading of the clock into the range of a signed 64-bit key:
/// readings beyond the range count as its last value.
pub open spec fn clamped_millis(ms: u128) -> i64 {
    if ms > i64::MAX as u128 {
        i64::MAX
    } else {
        ms as i64
    }
}

/// Milliseconds from the Unix epoch to the present reading of the system
/// clock. A clock that is set before the epoch counts as reading the epoch.
pub fn epoch_millis() -> u128 {
    let t = system_now();
    let since = match since_epoch(&t) {
        Ok(d) => Some(whole_millis(&d)),
        Err(_) => None,
    };
    count_reading(since)
}

/// What a reading of the clock counts as: the milliseconds that lie between
/// the epoch and the reading, and 0 where the reading lies before the epoch.
pub open spec fn counted_reading(since: Option<u128>) -> u128 {
    match since {
        Some(ms) => ms,
        None => 0,
    }
}

/// Turns a reading of the clock into milliseconds since the epoch: `since`
/// holds the milliseconds between the epoch and the reading, or nothing
/// where the reading lies before the epoch.
pub fn count_reading(since: Option<u128>) -> (ms: u128)
    ensures
        ms == counted_reading(since),
{
    match since {
        Some(ms) => ms,
        None => 0,
    }
}

/// A reading of the clock as a signed 64-bit number of milliseconds.
pub fn clamp_millis(ms: u128) -> (t: i64)
    ensures
        t == clamped_millis(ms),
        t >= 0,
{
    if ms > i64::MAX as u128 {
        i64::MAX
    } else {
        ms as i64
    }
}

} // verus!
