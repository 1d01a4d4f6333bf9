//! Clock times and timestamps as text. What a text means under a format
//! string is for chrono to say; this module gives those meanings names.

use crate::calendar::{ClockTime, Instant};
use chrono::{DateTime, NaiveDateTime, NaiveTime, TimeZone, Timelike, Utc};
use vstd::prelude::*;

verus! {

/// The clock reading that chrono's `NaiveTime::parse_from_str` reads from
/// `text` under `format`; `None` where it reports an error.
pub uninterp spec fn naive_time_in(text: Seq<char>, format: Seq<char>) -> Option<ClockTime>;

/// The point in time that chrono's `DateTime::parse_from_str` reads from
/// `text` under `format`; `None` where it reports an error.
pub uninterp spec fn offset_datetime_in(text: Seq<char>, format: Seq<char>) -> Option<Instant>;

/// The date and time that chrono's `NaiveDateTime::parse_from_str` reads from
/// `text` under `format`, taken as UTC; `None` where it reports an error.
pub uninterp spec fn utc_datetime_in(text: Seq<char>, format: Seq<char>) -> Option<Instant>;

/// Calls `NaiveTime::parse_from_str` and hands out the hour, minute, second
/// and nanosecond of what it returns. Not proved: the contract only names the
/// result, as a function of the text and the format string.
#[verifier::external_body]
pub(crate) fn read_naive_time(text: &str, format: &str) -> (read: Option<ClockTime>)
    ensures
        read == naive_time_in(text@, format@),
{
    let time = NaiveTime::parse_from_str(text, format).ok()?;
    Some(ClockTime {
        hour: time.hour(),
        minute: time.minute(),
        second: time.second(),
        nano: time.nanosecond(),
    })
}

/// Calls `DateTime::parse_from_str`, which wants a UTC offset in the text,
/// and hands out the Unix timestamp and the nanoseconds of what it returns.
/// Not proved: the contract only names the result, as a function of the text
/// and the format string.
#[verifier::external_body]
pub(crate) fn read_offset_datetime(text: &str, format: &str) -> (read: Option<Instant>)
    ensures
        read == offset_datetime_in(text@, format@),
{
    let at = DateTime::parse_from_str(text, format).ok()?;
    Some(Instant { timestamp: at.timestamp(), nano: at.timestamp_subsec_nanos() })
}

/// Calls `NaiveDateTime::parse_from_str`, reads the result as UTC with
/// `Utc.from_utc_datetime`, and hands out its Unix timestamp and nanoseconds.
/// Not proved: the contract only names the result, as a function of the text
/// and the format string.
#[verifier::external_body]
pub(crate) fn read_utc_datetime(text: &str, format: &str) -> (read: Option<Instant>)
    ensures
        read == utc_datetime_in(text@, format@),
{
    let naive = NaiveDateTime::parse_from_str(text, format).ok()?;
    let at = Utc.from_utc_datetime(&naive);
    Some(Instant { timestamp: at.timestamp(), nano: at.timestamp_subsec_nanos() })
}

} // verus!
