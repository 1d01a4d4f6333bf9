//! Calendar dates and wall-clock times as plain numbers, and a point in time
//! together with its reading on the local clock.

use vstd::prelude::*;

verus! {

/// The first year that a date may lie in.
pub const MIN_YEAR: i32 = -262_143;

/// The last year that a date may lie in.
pub const MAX_YEAR: i32 = 262_142;

/// The first second of `MIN_YEAR` in UTC, counted from the Unix epoch.
pub const MIN_TIMESTAMP: i64 = -8_334_601_228_800;

/// The last second of `MAX_YEAR` in UTC, counted from the Unix epoch.
pub const MAX_TIMESTAMP: i64 = 8_210_266_876_799;

/// Nanoseconds in one second.
pub const NANOS_PER_SECOND: u32 = 1_000_000_000;

/// Whether a year of the proleptic Gregorian calendar has a 29 February.
pub open spec fn leap_year(year: int) -> bool {
    year % 4 == 0 && (year % 100 != 0 || year % 400 == 0)
}

/// The number of days of a month; months are counted from 1.
pub open spec fn month_length(year: int, month: int) -> int {
    if month == 2 {
        if leap_year(year) {
            29
        } else {
            28
        }
    } else if month == 4 || month == 6 || month == 9 || month == 11 {
        30
    } else {
        31
    }
}

/// A date of the proleptic Gregorian calendar.
#[derive(Clone, Copy, Debug, PartialEq, Eq, Structural)]
pub struct CivilDate {
    pub year: i32,
    pub month: u32,
    pub day: u32,
}

/// A reading of a wall clock. As a leap second is written `23:59:59` with a
/// nanosecond part of one second or more, `nano` may reach up to two seconds.
#[derive(Clone, Copy, Debug, PartialEq, Eq, Structural)]
pub struct ClockTime {
    pub hour: u32,
    pub minute: u32,
    pub second: u32,
    pub nano: u32,
}

/// A point in time: the whole seconds since the Unix epoch and the part below
/// one second in nanoseconds.
#[derive(Clone, Copy, Debug, PartialEq, Eq, Structural)]
pub struct Instant {
    pub timestamp: i64,
    pub nano: u32,
}

/// A point in time with its reading in the local time zone: the whole seconds
/// since the Unix epoch, and the local date and wall-clock time at that point.
/// The part of the point below one second is `time.nano`.
#[derive(Clone, Copy, Debug, PartialEq, Eq, Structural)]
pub struct LocalDateTime {
    pub timestamp: i64,
    pub date: CivilDate,
    pub time: ClockTime,
}

/// Whether `year` has a 29 February.
pub fn is_leap_year(year: i32) -> (leap: bool)
    ensures
        leap == leap_year(year as int),
{
    year % 4 == 0 && (year % 100 != 0 || year % 400 == 0)
}

/// The number of days of month `month` of `year`.
pub fn days_in_month(year: i32, month: u32) -> (days: u32)
    ensures
        days == month_length(year as int, month as int),
{
    if month == 2 {
        if is_leap_year(year) {
            29
        } else {
            28
        }
    } else if month == 4 || month == 6 || month == 9 || month == 11 {
        30
    } else {
        31
    }
}

impl CivilDate {
    /// The date exists in the calendar and its year is in range.
    pub open spec fn wf(self) -> bool {
        &&& MIN_YEAR <= self.year <= MAX_YEAR
        &&& 1 <= self.month <= 12
        &&& 1 <= self.day <= month_length(self.year as int, self.month as int)
    }

    /// The date of the day after this one.
    pub open spec fn tomorrow(self) -> CivilDate {
        if self.day < month_length(self.year as int, self.month as int) {
            CivilDate { year: self.year, month: self.month, day: (self.day + 1) as u32 }
        } else if self.month < 12 {
            CivilDate { year: self.year, month: (self.month + 1) as u32, day: 1 }
        } else {
            CivilDate { year: (self.year + 1) as i32, month: 1, day: 1 }
        }
    }

    /// Whether the date exists in the calendar and its year is in range.
    pub fn is_valid(&self) -> (valid: bool)
        ensures
            valid == self.wf(),
    {
        MIN_YEAR <= self.year && self.year <= MAX_YEAR && 1 <= self.month && self.month <= 12
            && 1 <= self.day && self.day <= days_in_month(self.year, self.month)
    }

    /// The date of the next day, or `None` after the last day of `MAX_YEAR`.
    pub fn next_day(&self) -> (next: Option<CivilDate>)
        requires
            self.wf(),
        ensures
            next == if self.tomorrow().year <= MAX_YEAR {
                Some(self.tomorrow())
            } else {
                None
            },
            next matches Some(d) ==> d.wf(),
    {
        if self.day < days_in_month(self.year, self.month) {
            Some(CivilDate { year: self.year, month: self.month, day: self.day + 1 })
        } else if self.month < 12 {
            Some(CivilDate { year: self.year, month: self.month + 1, day: 1 })
        } else if self.year < MAX_YEAR {
            Some(CivilDate { year: self.year + 1, month: 1, day: 1 })
        } else {
            None
        }
    }
}

impl ClockTime {
    /// The reading is one that a clock shows.
    pub open spec fn wf(self) -> bool {
        &&& self.hour < 24
        &&& self.minute < 60
        &&& self.second < 60
        &&& self.nano < 2 * NANOS_PER_SECOND
        &&& self.nano >= NANOS_PER_SECOND ==> self.second == 59
    }

    /// Whether the reading is one that a clock shows.
    pub fn is_valid(&self) -> (valid: bool)
        ensures
            valid == self.wf(),
    {
        self.hour < 24 && self.minute < 60 && self.second < 60 && self.nano < 2 * NANOS_PER_SECOND
            && (self.nano < NANOS_PER_SECOND || self.second == 59)
    }
}

impl LocalDateTime {
    /// The date and the clock reading are valid and the point in time is in
    /// range.
    pub open spec fn wf(self) -> bool {
        &&& MIN_TIMESTAMP <= self.timestamp <= MAX_TIMESTAMP
        &&& self.date.wf()
        &&& self.time.wf()
    }

    /// The point in time in nanoseconds since the Unix epoch.
    pub open spec fn instant(self) -> int {
        self.timestamp * NANOS_PER_SECOND + self.time.nano
    }

    /// The point in time without its local reading, which is the same in
    /// every time zone.
    pub open spec fn point(self) -> Instant {
        Instant { timestamp: self.timestamp, nano: self.time.nano }
    }

    /// Whether the value is well formed.
    pub fn is_valid(&self) -> (valid: bool)
        ensures
            valid == self.wf(),
    {
        MIN_TIMESTAMP <= self.timestamp && self.timestamp <= MAX_TIMESTAMP && self.date.is_valid()
            && self.time.is_valid()
    }

    /// Puts a point in time and its local reading together, if they are well
    /// formed.
    pub fn new(timestamp: i64, date: CivilDate, time: ClockTime) -> (made: Option<LocalDateTime>)
        ensures
            made == if (LocalDateTime { timestamp, date, time }).wf() {
                Some(LocalDateTime { timestamp, date, time })
            } else {
                None
            },
    {
        let made = LocalDateTime { timestamp, date, time };
        if made.is_valid() {
            Some(made)
        } else {
            None
        }
    }

    /// The point in time in nanoseconds since the Unix epoch.
    pub fn nanos_since_epoch(&self) -> (nanos: i128)
        requires
            self.wf(),
        ensures
            nanos == self.instant(),
    {
        self.timestamp as i128 * 1_000_000_000 + self.time.nano as i128
    }

    /// Whether this point in time lies strictly after `other`.
    pub fn is_after(&self, other: &LocalDateTime) -> (after: bool)
        requires
            self.wf(),
            other.wf(),
        ensures
            after == (self.instant() > other.instant()),
    {
        self.nanos_since_epoch() > other.nanos_since_epoch()
    }
}

} // verus!
