//! Timestamps in whole seconds and the distance between two of them.

use vstd::prelude::*;

verus! {

/// The distance from `then` to `now`, kept inside the range of `i64`.
pub open spec fn elapsed(now: int, then: int) -> int {
    if now - then > i64::MAX {
        i64::MAX as int
    } else if now - then < i64::MIN {
        i64::MIN as int
    } else {
        now - then
    }
}

/// Seconds from `then` to `now`, saturating at the bounds of `i64`.
pub fn elapsed_since(now: i64, then: i64) -> (gap: i64)
    ensures
        gap == elapsed(now as int, then as int),
{
    if then >= 0 {
        if now < i64::MIN + then {
            i64::MIN
        } else {
            now - then
        }
    } else {
        if now > i64::MAX + then {
            i64::MAX
        } else {
            now - then
        }
    }
}

/// The timestamp for a clock reading of `secs` seconds since the epoch.
pub open spec fn timestamp_of(secs: u64) -> int {
    if secs <= i64::MAX {
        secs as int
    } else {
        secs - 0x1_0000_0000_0000_0000
    }
}

/// A point in time as the system clock gives it. Nothing is read from it
/// but its distance from the epoch.
#[verifier::external_type_specification]
#[verifier::external_body]
pub struct ExSystemTime(std::time::SystemTime);

/// The error of a clock that is set before the epoch.
#[verifier::external_type_specification]
#[verifier::external_body]
pub struct ExSystemTimeError(std::time::SystemTimeError);

/// Reads the system clock with `std::time::SystemTime::now`. Nothing is
/// claimed of the reading.
#[verifier::external_body]
fn system_now() -> (reading: std::time::SystemTime) {
    std::time::SystemTime::now()
}

/// Measures `reading` against `std::time::UNIX_EPOCH` with
/// `std::time::SystemTime::duration_since`: the time since the epoch, or an
/// error for a reading before it. Nothing is claimed of the result.
#[verifier::external_body]
fn since_epoch(reading: &std::time::SystemTime) -> (elapsed: Result<
    std::time::Duration,
    std::time::SystemTimeError,
>) {
    reading.duration_since(std::time::UNIX_EPOCH)
}

/// The whole seconds of a duration, by `std::time::Duration::as_secs`.
/// Nothing is claimed of the number.
#[verifier::external_body]
fn whole_secs(elapsed: &std::time::Duration) -> (secs: u64) {
    elapsed.as_secs()
}

/// Turns a clock reading into a timestamp; readings beyond `i64::MAX` wrap.
pub fn timestamp_from_secs(secs: u64) -> (ts: i64)
    ensures
        ts == timestamp_of(secs),
{
    if secs <= 0x7fff_ffff_ffff_ffff {
        secs as i64
    } else {
        let low: u64 = secs - 0x8000_0000_0000_0000;
        let neg: i64 = low as i64;
        neg + i64::MIN
    }
}

/// The current time in seconds since the Unix epoch, or zero for a clock
/// that is set before it. Nothing is claimed of the value: it is whatever
/// the clock says. What is made of a time is stated by the functions that
/// take one as an argument.
pub fn now_ts() -> (ts: i64) {
    let reading = system_now();
    let secs: u64 = match since_epoch(&reading) {
        Ok(elapsed) => whole_secs(&elapsed),
        Err(_) => 0,
    };
    timestamp_from_secs(secs)
}

} // verus!
