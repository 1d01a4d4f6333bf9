//! The local time zone, which is the machine's own: what the local clock
//! shows at a point in time, and at which point it shows a given reading.

use crate::calendar::{
    CivilDate, ClockTime, LocalDateTime, MAX_TIMESTAMP, MIN_TIMESTAMP, NANOS_PER_SECOND,
};
use chrono::{Datelike, Local, NaiveDate, NaiveTime, TimeZone, Timelike};
use vstd::prelude::*;

verus! {

/// Seconds in one day.
pub const SECONDS_PER_DAY: i64 = 86_400;

/// A point in time of which every time zone has a well formed reading: the
/// nanoseconds are less than a second, and the timestamp lies a day or more
/// inside the range, so that a local clock, which is less than a day off UTC,
/// still shows a year in range.
pub open spec fn always_readable(timestamp: int, nano: u32) -> bool {
    &&& MIN_TIMESTAMP + SECONDS_PER_DAY <= timestamp <= MAX_TIMESTAMP - SECONDS_PER_DAY
    &&& nano < NANOS_PER_SECOND
}

/// Asks `chrono::Local`, through `TimeZone::timestamp_opt`, for the local
/// reading at a point in time. Which date and clock reading the answer holds
/// depends on the machine's time zone, and nothing is said of it but that it
/// is well formed. Not proved: that an answer is for the point in time that
/// was asked for, nanoseconds included; and that, as chrono documents, there
/// is an answer for every timestamp in its range with nanoseconds below one
/// second, which holds a date of the calendar and a reading of a clock, with
/// the year in range where the timestamp is a day or more inside the range.
/// `None` where chrono cannot hold the point in time.
#[verifier::external_body]
fn zone_reading_at(timestamp: i64, nano: u32) -> (reading: Option<LocalDateTime>)
    ensures
        reading matches Some(t) ==> t.timestamp == timestamp && t.time.nano == nano,
        reading matches Some(t) ==> (always_readable(timestamp as int, nano) ==> t.date.wf()
            && t.time.wf()),
        reading is None ==> !always_readable(timestamp as int, nano),
{
    let at = Local.timestamp_opt(timestamp, nano).single()?;
    Some(LocalDateTime {
        timestamp: at.timestamp(),
        date: CivilDate { year: at.year(), month: at.month(), day: at.day() },
        time: ClockTime {
            hour: at.hour(),
            minute: at.minute(),
            second: at.second(),
            nano: at.nanosecond(),
        },
    })
}

/// Asks `chrono::Local`, through `TimeZone::from_local_datetime`, for the one
/// point in time at which the local clock shows the given date and reading.
/// The answer depends on the machine's time zone, so nothing is said of the
/// point in time. Not proved: that an answer reads, on the local clock, as the
/// date and the time that were asked for. `None` where the local clock
/// never shows that reading or shows it twice, or where chrono cannot hold it.
#[verifier::external_body]
fn zone_instant_of(date: CivilDate, time: ClockTime) -> (found: Option<LocalDateTime>)
    ensures
        found matches Some(t) ==> t.date == date && t.time == time,
{
    let day = NaiveDate::from_ymd_opt(date.year, date.month, date.day)?;
    let clock = NaiveTime::from_hms_nano_opt(time.hour, time.minute, time.second, time.nano)?;
    let at = Local.from_local_datetime(&day.and_time(clock)).single()?;
    Some(LocalDateTime {
        timestamp: at.timestamp(),
        date: CivilDate { year: at.year(), month: at.month(), day: at.day() },
        time: ClockTime {
            hour: at.hour(),
            minute: at.minute(),
            second: at.second(),
            nano: at.nanosecond(),
        },
    })
}

/// The local reading at the point in time `timestamp` seconds and `nano`
/// nanoseconds after the Unix epoch, where the local time zone gives a well
/// formed one. It gives one for every point in time that is always readable.
pub fn local_time_at(timestamp: i64, nano: u32) -> (reading: Option<LocalDateTime>)
    ensures
        reading matches Some(t) ==> t.wf() && t.timestamp == timestamp && t.time.nano == nano,
        always_readable(timestamp as int, nano) ==> reading is Some,
{
    match zone_reading_at(timestamp, nano) {
        Some(t) => LocalDateTime::new(t.timestamp, t.date, t.time),
        None => None,
    }
}

/// The point in time at which the local clock shows `time` on `date`, where
/// the local time zone has exactly one such point and it is in range.
pub fn local_time_on(date: CivilDate, time: ClockTime) -> (found: Option<LocalDateTime>)
    ensures
        found matches Some(t) ==> t.wf() && t.date == date && t.time == time,
{
    match zone_instant_of(date, time) {
        Some(t) => LocalDateTime::new(t.timestamp, t.date, t.time),
        None => None,
    }
}

} // verus!
