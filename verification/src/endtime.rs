//! From a time expression and the present moment to the end time.

use crate::args::texts;
use crate::calendar::{ClockTime, Instant, LocalDateTime, MAX_TIMESTAMP, MIN_TIMESTAMP};
use crate::expr::{parse_time_expr, time_expr, ParseError, ParseErrorView, TimeExpr};
use crate::zone::{always_readable, local_time_at, local_time_on};
use vstd::prelude::*;

verus! {

/// The timestamp `delay` seconds after `timestamp`, where it is in range.
pub open spec fn shifted(timestamp: i64, delay: i64) -> Option<i64> {
    if MIN_TIMESTAMP <= timestamp + delay <= MAX_TIMESTAMP {
        Some((timestamp + delay) as i64)
    } else {
        None
    }
}

/// The end time for a clock reading, given the point in time at which the
/// local clock shows it today and the one at which it shows it tomorrow, each
/// `None` where there is no single such point: today's where it lies strictly
/// after `now`, else tomorrow's.
pub open spec fn clock_choice(
    now: LocalDateTime,
    today: Option<LocalDateTime>,
    tomorrow: Option<LocalDateTime>,
) -> Result<LocalDateTime, ParseErrorView> {
    match today {
        None => Err(ParseErrorView::AmbiguousLocalTime),
        Some(first) => if first.instant() > now.instant() {
            Ok(first)
        } else {
            match tomorrow {
                None => Err(ParseErrorView::AmbiguousLocalTime),
                Some(second) => Ok(second),
            }
        },
    }
}

/// Whether `end` answers the expression at `now`: it lies the given number of
/// seconds after `now`; or it reads as the given clock time, today and after
/// `now` or else tomorrow; or it is the given point in time.
pub open spec fn answers(expr: TimeExpr, now: LocalDateTime, end: LocalDateTime) -> bool {
    match expr {
        TimeExpr::After(delay) => {
            &&& end.timestamp == now.timestamp + delay
            &&& end.time.nano == now.time.nano
        },
        TimeExpr::Clock(time) => {
            &&& end.time == time
            &&& {
                ||| end.date == now.date && end.instant() > now.instant()
                ||| end.date == now.date.tomorrow()
            }
        },
        TimeExpr::At(at) => end.point() == at,
    }
}

/// The error that is left for an expression when the local time zone gives
/// no end time for it.
pub open spec fn zone_failure(expr: TimeExpr) -> ParseErrorView {
    match expr {
        TimeExpr::Clock(_) => ParseErrorView::AmbiguousLocalTime,
        _ => ParseErrorView::OutOfRange,
    }
}

/// Whether an end time is owed for the expression at `now` whatever the
/// local time zone is: for a delay and for a point in time given in full,
/// where the end is always readable. For a clock reading the zone decides.
pub open spec fn owed(expr: TimeExpr, now: LocalDateTime) -> bool {
    match expr {
        TimeExpr::After(delay) => always_readable(now.timestamp + delay, now.time.nano),
        TimeExpr::Clock(_) => false,
        TimeExpr::At(at) => always_readable(at.timestamp as int, at.nano),
    }
}

/// The view of an outcome: that of its error, where it is one.
pub open spec fn end_view(outcome: Result<LocalDateTime, ParseError>) -> Result<
    LocalDateTime,
    ParseErrorView,
> {
    match outcome {
        Ok(end) => Ok(end),
        Err(error) => Err(error@),
    }
}

/// An end time that answers a delay lies that many seconds after `now`, to
/// the nanosecond.
pub proof fn lemma_delay_is_exact(delay: i64, now: LocalDateTime, end: LocalDateTime)
    requires
        answers(TimeExpr::After(delay), now, end),
    ensures
        end.instant() == now.instant() + delay * 1_000_000_000,
{
}

/// For a clock reading the end time is on today's date where the local
/// clock shows the reading strictly after `now`, and on tomorrow's date where
/// it shows it at `now` or before; either way it reads as the time asked for.
pub proof fn lemma_clock_today_or_tomorrow(
    now: LocalDateTime,
    time: ClockTime,
    today: LocalDateTime,
    tomorrow: LocalDateTime,
)
    requires
        today.date == now.date,
        today.time == time,
        tomorrow.date == now.date.tomorrow(),
        tomorrow.time == time,
    ensures
        clock_choice(now, Some(today), Some(tomorrow)) matches Ok(end) && end.time == time
            && answers(TimeExpr::Clock(time), now, end) && end.date == if today.instant()
            > now.instant() {
            now.date
        } else {
            now.date.tomorrow()
        },
{
}

/// An end time that answers a point in time given in full is that point:
/// read apart from its time zone it gives the timestamp and the nanoseconds
/// back.
pub proof fn lemma_point_is_kept(at: Instant, now: LocalDateTime, end: LocalDateTime)
    requires
        answers(TimeExpr::At(at), now, end),
    ensures
        end.timestamp == at.timestamp,
        end.time.nano == at.nano,
        end.instant() == at.timestamp * 1_000_000_000 + at.nano,
{
}

/// The timestamp `delay` seconds after `timestamp`, where it is in range.
pub fn shift_timestamp(timestamp: i64, delay: i64) -> (moved: Option<i64>)
    ensures
        moved == shifted(timestamp, delay),
{
    let sum: i128 = timestamp as i128 + delay as i128;
    if MIN_TIMESTAMP as i128 <= sum && sum <= MAX_TIMESTAMP as i128 {
        Some(sum as i64)
    } else {
        None
    }
}

/// Chooses the end time for a clock reading between the point in time at
/// which the local clock shows it today and the one at which it shows it
/// tomorrow.
pub fn clock_end_time(
    now: &LocalDateTime,
    today: Option<LocalDateTime>,
    tomorrow: Option<LocalDateTime>,
) -> (outcome: Result<LocalDateTime, ParseError>)
    requires
        now.wf(),
        today matches Some(t) ==> t.wf(),
    ensures
        end_view(outcome) == clock_choice(*now, today, tomorrow),
{
    match today {
        None => Err(ParseError::AmbiguousLocalTime),
        Some(first) => if first.is_after(now) {
            Ok(first)
        } else {
            match tomorrow {
                None => Err(ParseError::AmbiguousLocalTime),
                Some(second) => Ok(second),
            }
        },
    }
}

/// The end time for a reading of the local zone at a point in time that was
/// asked for: the reading, or out of range where there is none.
pub fn reading_end_time(reading: Option<LocalDateTime>) -> (outcome: Result<
    LocalDateTime,
    ParseError,
>)
    ensures
        end_view(outcome) == match reading {
            Some(end) => Ok::<LocalDateTime, ParseErrorView>(end),
            None => Err(ParseErrorView::OutOfRange),
        },
{
    match reading {
        Some(end) => Ok(end),
        None => Err(ParseError::OutOfRange),
    }
}

/// Finds the end time that an expression asks for at `now`, in the local time
/// zone. For a delay the zone is asked what the clock shows at the shifted
/// point in time; for a clock reading, at which points the clock shows it
/// today and tomorrow; for a point in time, what the clock shows then.
pub fn resolve(expr: TimeExpr, now: &LocalDateTime) -> (outcome: Result<LocalDateTime, ParseError>)
    requires
        now.wf(),
    ensures
        match outcome {
            Ok(end) => end.wf() && answers(expr, *now, end),
            Err(error) => error@ == zone_failure(expr),
        },
        owed(expr, *now) ==> outcome is Ok,
{
    match expr {
        TimeExpr::After(delay) => {
            match shift_timestamp(now.timestamp, delay) {
                Some(timestamp) => reading_end_time(local_time_at(timestamp, now.time.nano)),
                None => Err(ParseError::OutOfRange),
            }
        },
        TimeExpr::Clock(time) => {
            let today = local_time_on(now.date, time);
            let tomorrow = match now.date.next_day() {
                Some(date) => local_time_on(date, time),
                None => None,
            };
            clock_end_time(now, today, tomorrow)
        },
        TimeExpr::At(at) => reading_end_time(local_time_at(at.timestamp, at.nano)),
    }
}

/// Reads a list of tokens as a time expression and finds the end time that
/// it asks for at `now`.
///
/// A list that is no time expression gives the error of the grammar. For one
/// that is, an end time that comes back answers the expression. One comes
/// back wherever it is owed; elsewhere that is for the local time zone to
/// say, and where none comes back the error is `AmbiguousLocalTime` for a
/// clock reading and `OutOfRange` otherwise.
pub fn parse_end_time(args: &[String], now: LocalDateTime) -> (outcome: Result<
    LocalDateTime,
    ParseError,
>)
    requires
        now.wf(),
    ensures
        match outcome {
            Ok(end) => {
                &&& end.wf()
                &&& time_expr(texts(args@)) matches Ok(expr)
                &&& answers(expr, now, end)
            },
            Err(error) => match time_expr(texts(args@)) {
                Ok(expr) => error@ == zone_failure(expr),
                Err(reason) => error@ == reason,
            },
        },
        time_expr(texts(args@)) matches Ok(expr) && owed(expr, now) ==> outcome is Ok,
{
    match parse_time_expr(args) {
        Ok(expr) => resolve(expr, &now),
        Err(error) => Err(error),
    }
}

} // verus!
