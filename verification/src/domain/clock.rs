//! The system clock: read from `std`, turned into local fields by `chrono`.
//!
//! The calls that reach outside are the only things here that are not
//! proved. Each is a wrapper of its own that makes one call and says of the
//! result no more than its documentation does. Putting them together, and
//! what happens when the clock cannot be read as a local date, is verified.

use chrono::{Datelike, Offset, Timelike};
use std::time::{Duration, SystemTime, SystemTimeError, UNIX_EPOCH};
use vstd::prelude::*;

verus! {

/// A point on the system clock, carried from one call to the next unread.
#[verifier::external_type_specification]
#[verifier::external_body]
pub struct ExSystemTime(SystemTime);

/// How far a point on the system clock lies before another, carried unread.
#[verifier::external_type_specification]
#[verifier::external_body]
pub struct ExSystemTimeError(SystemTimeError);

/// One reading of the local clock: the civil date and time of day where the
/// machine stands, and how many seconds local time is ahead of UTC.
#[derive(Debug, Clone, Copy, PartialEq, Eq, Structural)]
pub struct ClockReading {
    pub year: i32,
    pub month: i32,
    pub day: i32,
    pub hour: i32,
    pub minute: i32,
    pub second: i32,
    pub offset_seconds: i32,
}

impl ClockReading {
    /// The ranges a reading of the clock keeps to.
    pub open spec fn in_range(self) -> bool {
        &&& 1 <= self.month <= 12
        &&& 1 <= self.day <= 31
        &&& 0 <= self.hour <= 23
        &&& 0 <= self.minute <= 59
        &&& 0 <= self.second <= 59
        &&& -86400 < self.offset_seconds < 86400
    }

    /// The offset in whole hours, a part of an hour dropped towards zero.
    pub open spec fn whole_hours(self) -> int {
        if self.offset_seconds >= 0 {
            self.offset_seconds as int / 3600
        } else {
            -((-self.offset_seconds) as int / 3600)
        }
    }

    /// The offset from UTC in whole hours; a part of an hour is dropped.
    pub fn utc_offset_hours(&self) -> (r: i32)
        ensures
            r == self.whole_hours(),
            self.in_range() ==> -23 <= r <= 23,
    {
        self.offset_seconds / 3600
    }
}

/// Where the clock stands against the first second of 1970, as whole seconds
/// and a part of a second. With `ahead` the clock stands that far after it,
/// without `ahead` that far before it. The part counts on from the last whole
/// second, so a distance before 1970 with a part lies in the second below.
pub open spec fn unix_time(ahead: bool, seconds: int, nanos: int) -> (int, int) {
    if ahead {
        (seconds, nanos)
    } else if nanos > 0 {
        (-seconds - 1, 1_000_000_000 - nanos)
    } else {
        (-seconds, 0)
    }
}

/// The signed count of seconds since 1970 and the part of a second beyond it,
/// from a distance and its direction; `None` when the count does not fit.
pub fn unix_time_of(ahead: bool, seconds: u64, nanos: u32) -> (r: Option<(i64, u32)>)
    requires
        nanos < 1_000_000_000,
    ensures
        r == if i64::MIN <= unix_time(ahead, seconds as int, nanos as int).0 <= i64::MAX {
            Some(
                (
                    unix_time(ahead, seconds as int, nanos as int).0 as i64,
                    unix_time(ahead, seconds as int, nanos as int).1 as u32,
                ),
            )
        } else {
            None
        },
{
    if seconds <= 0x7fff_ffff_ffff_ffff {
        let count = seconds as i64;
        if ahead {
            Some((count, nanos))
        } else if nanos > 0 {
            Some((-count - 1, 1_000_000_000 - nanos))
        } else {
            Some((-count, 0))
        }
    } else if !ahead && nanos == 0 && seconds == 0x8000_0000_0000_0000 {
        Some((i64::MIN, 0))
    } else {
        None
    }
}

/// The local date, time of day and UTC offset that the system clock shows
/// now, or `None` when the clock stands where no local date can be given for
/// it. Nothing is said of the year, nor that two readings agree.
pub fn read_local_clock() -> (r: Option<ClockReading>)
    ensures
        r matches Some(reading) ==> reading.in_range(),
{
    let now = system_now();
    let (ahead, distance) = match since_unix_epoch(&now) {
        Ok(distance) => (true, distance),
        Err(before) => (false, distance_before(&before)),
    };
    match unix_time_of(ahead, whole_seconds(&distance), part_of_second(&distance)) {
        Some((seconds, nanos)) => local_fields(seconds, nanos),
        None => None,
    }
}

/// Calls `std::time::SystemTime::now`. Trusted: nothing is claimed of the
/// result.
#[verifier::external_body]
fn system_now() -> SystemTime {
    SystemTime::now()
}

/// Calls `std::time::SystemTime::duration_since` with `UNIX_EPOCH`. Trusted:
/// nothing is claimed of the result, and the caller handles both outcomes.
#[verifier::external_body]
fn since_unix_epoch(now: &SystemTime) -> Result<Duration, SystemTimeError> {
    now.duration_since(UNIX_EPOCH)
}

/// Calls `std::time::SystemTimeError::duration`. Trusted: nothing is claimed
/// of the result.
#[verifier::external_body]
fn distance_before(before: &SystemTimeError) -> Duration {
    before.duration()
}

/// Calls `std::time::Duration::as_secs`. Trusted: nothing is claimed of the
/// result.
#[verifier::external_body]
fn whole_seconds(distance: &Duration) -> u64 {
    distance.as_secs()
}

/// Calls `std::time::Duration::subsec_nanos`. Trusted, not proved: the result
/// is a part of a second, less than one billion nanoseconds, as the method's
/// documentation says.
#[verifier::external_body]
fn part_of_second(distance: &Duration) -> (r: u32)
    ensures
        r < 1_000_000_000,
{
    distance.subsec_nanos()
}

/// Turns a count of seconds since 1970 into the local date, time of day and
/// UTC offset.
///
/// Calls `chrono::DateTime::from_timestamp`, which gives `None` for a count
/// beyond the dates it can hold, then `DateTime::with_timezone` with
/// `chrono::Local`, and reads the result through `Datelike::year`, `month`
/// and `day`, `Timelike::hour`, `minute` and `second`, and
/// `FixedOffset::local_minus_utc` of `Offset::fix`. Trusted, not proved: the
/// month is within 1..=12, the day within 1..=31, the hour within 0..=23,
/// minute and second within 0..=59, as `chrono` documents for these methods,
/// and the offset lies strictly between -86400 and 86400 seconds, the only
/// values a `FixedOffset` is ever made with. The fields depend on the
/// machine's time zone, so nothing more is said of them.
#[verifier::external_body]
fn local_fields(seconds: i64, nanos: u32) -> (r: Option<ClockReading>)
    ensures
        r matches Some(reading) ==> reading.in_range(),
{
    let utc = chrono::DateTime::from_timestamp(seconds, nanos)?;
    let now = utc.with_timezone(&chrono::Local);
    Some(ClockReading {
        year: now.year(),
        month: now.month() as i32,
        day: now.day() as i32,
        hour: now.hour() as i32,
        minute: now.minute() as i32,
        second: now.second() as i32,
        offset_seconds: now.offset().fix().local_minus_utc(),
    })
}

} // verus!
