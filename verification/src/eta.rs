//! The end time as text, as short as the distance from now allows.

use crate::calendar::{ClockTime, LocalDateTime, NANOS_PER_SECOND};
use crate::number::padded;
use chrono::NaiveDate;
use vstd::prelude::*;

verus! {

/// A year in four digits or more. A year before 0 or after 9999 has its sign
/// in front.
pub open spec fn year_text(year: int) -> Seq<char> {
    if 0 <= year <= 9999 {
        padded(year as nat, 4)
    } else if year < 0 {
        seq!['-'] + padded((-year) as nat, 4)
    } else {
        seq!['+'] + padded(year as nat, 4)
    }
}

/// The second that a clock reading shows: 60 within a leap second.
pub open spec fn shown_second(t: LocalDateTime) -> nat {
    (t.time.second + t.time.nano / NANOS_PER_SECOND) as nat
}

/// What a conversion letter of a format string stands for: `Y` the year, `m`
/// the month, `d` the day, `H` the hour, `M` the minute and `S` the second,
/// each but the year in two digits.
pub open spec fn field_text(t: LocalDateTime, letter: char) -> Seq<char> {
    if letter == 'Y' {
        year_text(t.date.year as int)
    } else if letter == 'm' {
        padded(t.date.month as nat, 2)
    } else if letter == 'd' {
        padded(t.date.day as nat, 2)
    } else if letter == 'H' {
        padded(t.time.hour as nat, 2)
    } else if letter == 'M' {
        padded(t.time.minute as nat, 2)
    } else {
        padded(shown_second(t), 2)
    }
}

/// A format string made of the conversions `%Y %m %d %H %M %S` and, between
/// them, of spaces, hyphens and colons only.
pub open spec fn plain_format(format: Seq<char>) -> bool
    decreases format.len(),
{
    if format.len() == 0 {
        true
    } else if format[0] == '%' {
        &&& format.len() >= 2
        &&& {
            ||| format[1] == 'Y'
            ||| format[1] == 'm'
            ||| format[1] == 'd'
            ||| format[1] == 'H'
            ||| format[1] == 'M'
            ||| format[1] == 'S'
        }
        &&& plain_format(format.skip(2))
    } else {
        &&& (format[0] == ' ' || format[0] == '-' || format[0] == ':')
        &&& plain_format(format.skip(1))
    }
}

/// A local date and time written out under a plain format string: each
/// conversion replaced by its field, every other character kept.
pub open spec fn rendered(t: LocalDateTime, format: Seq<char>) -> Seq<char>
    decreases format.len(),
{
    if format.len() == 0 {
        Seq::<char>::empty()
    } else if format[0] == '%' && format.len() >= 2 {
        field_text(t, format[1]) + rendered(t, format.skip(2))
    } else {
        seq![format[0]] + rendered(t, format.skip(1))
    }
}

/// The clock reading as `HH:MM:SS`.
pub open spec fn clock_text(t: LocalDateTime) -> Seq<char> {
    padded(t.time.hour as nat, 2) + seq![':'] + padded(t.time.minute as nat, 2) + seq![':']
        + padded(shown_second(t), 2)
}

/// The month and the day as `MM-DD`.
pub open spec fn month_day_text(t: LocalDateTime) -> Seq<char> {
    padded(t.date.month as nat, 2) + seq!['-'] + padded(t.date.day as nat, 2)
}

/// The end time as it is shown at `now`: the clock reading alone where both
/// fall on the same date; with month and day in front where they fall in the
/// same year; with the year too in any other case.
pub open spec fn eta_text(end: LocalDateTime, now: LocalDateTime) -> Seq<char> {
    if end.date == now.date {
        clock_text(end)
    } else if end.date.year == now.date.year {
        month_day_text(end) + seq![' '] + clock_text(end)
    } else {
        year_text(end.date.year as int) + seq!['-'] + month_day_text(end) + seq![' ']
            + clock_text(end)
    }
}

/// Builds chrono's `NaiveDateTime` from the local date and clock reading and
/// formats it with `NaiveDateTime::format`. Not proved: that for a plain
/// format string chrono writes each conversion as `field_text` says (two
/// digits with a zero in front, the year in four with its sign outside
/// 0..=9999, the second as 60 within a leap second) and keeps the characters
/// between them.
#[verifier::external_body]
fn format_local(t: &LocalDateTime, format: &str) -> (text: String)
    requires
        t.wf(),
        plain_format(format@),
    ensures
        text@ == rendered(*t, format@),
{
    let date = NaiveDate::from_ymd_opt(t.date.year, t.date.month, t.date.day).unwrap_or_default();
    let ClockTime { hour, minute, second, nano } = t.time;
    let at = date.and_hms_nano_opt(hour, minute, second, nano).unwrap_or_default();
    at.format(format).to_string()
}

/// One step of writing out a format string at a conversion.
proof fn lemma_conversion_at(t: LocalDateTime, format: Seq<char>, i: int)
    requires
        0 <= i,
        i + 2 <= format.len(),
        format[i] == '%',
    ensures
        rendered(t, format.skip(i)) == field_text(t, format[i + 1]) + rendered(
            t,
            format.skip(i + 2),
        ),
        plain_format(format.skip(i)) == ({
            &&& {
                ||| format[i + 1] == 'Y'
                ||| format[i + 1] == 'm'
                ||| format[i + 1] == 'd'
                ||| format[i + 1] == 'H'
                ||| format[i + 1] == 'M'
                ||| format[i + 1] == 'S'
            }
            &&& plain_format(format.skip(i + 2))
        }),
{
    assert(format.skip(i).skip(2) =~= format.skip(i + 2));
}

/// One step of writing out a format string at any other character.
proof fn lemma_literal_at(t: LocalDateTime, format: Seq<char>, i: int)
    requires
        0 <= i < format.len(),
        format[i] != '%',
    ensures
        rendered(t, format.skip(i)) == seq![format[i]] + rendered(t, format.skip(i + 1)),
        plain_format(format.skip(i)) == ({
            &&& (format[i] == ' ' || format[i] == '-' || format[i] == ':')
            &&& plain_format(format.skip(i + 1))
        }),
{
    assert(format.skip(i).skip(1) =~= format.skip(i + 1));
}

/// The format `%H:%M:%S`, from position `i` of a format string on, is plain
/// and writes the clock reading.
proof fn lemma_clock_format(t: LocalDateTime, format: Seq<char>, i: int)
    requires
        0 <= i,
        format.len() == i + 8,
        format.skip(i) == seq!['%', 'H', ':', '%', 'M', ':', '%', 'S'],
    ensures
        plain_format(format.skip(i)),
        rendered(t, format.skip(i)) == clock_text(t),
{
    let tail = seq!['%', 'H', ':', '%', 'M', ':', '%', 'S'];
    assert forall|k: int| 0 <= k < 8 implies format[i + k] == tail[k] by {
        assert(format.skip(i)[k] == format[i + k]);
    }
    assert(format[i] == tail[0] && format[i + 1] == tail[1] && format[i + 2] == tail[2]
        && format[i + 3] == tail[3] && format[i + 4] == tail[4] && format[i + 5] == tail[5]
        && format[i + 6] == tail[6] && format[i + 7] == tail[7]);
    lemma_conversion_at(t, format, i);
    lemma_literal_at(t, format, i + 2);
    lemma_conversion_at(t, format, i + 3);
    lemma_literal_at(t, format, i + 5);
    lemma_conversion_at(t, format, i + 6);
    assert(format.skip(i + 8).len() == 0);
    assert(rendered(t, format.skip(i)) =~= clock_text(t));
}

/// The format `%m-%d %H:%M:%S`, from position `i` of a format string on, is
/// plain and writes month, day and clock reading.
proof fn lemma_month_day_format(t: LocalDateTime, format: Seq<char>, i: int)
    requires
        0 <= i,
        format.len() == i + 14,
        format.skip(i) == seq![
            '%',
            'm',
            '-',
            '%',
            'd',
            ' ',
            '%',
            'H',
            ':',
            '%',
            'M',
            ':',
            '%',
            'S',
        ],
    ensures
        plain_format(format.skip(i)),
        rendered(t, format.skip(i)) == month_day_text(t) + seq![' '] + clock_text(t),
{
    let tail = format.skip(i);
    assert forall|k: int| 0 <= k < 14 implies format[i + k] == tail[k] by {}
    assert(format[i] == tail[0] && format[i + 1] == tail[1] && format[i + 2] == tail[2]
        && format[i + 3] == tail[3] && format[i + 4] == tail[4] && format[i + 5] == tail[5]);
    assert(format.skip(i + 6) =~= seq!['%', 'H', ':', '%', 'M', ':', '%', 'S']);
    lemma_clock_format(t, format, i + 6);
    lemma_conversion_at(t, format, i);
    lemma_literal_at(t, format, i + 2);
    lemma_conversion_at(t, format, i + 3);
    lemma_literal_at(t, format, i + 5);
    assert(rendered(t, format.skip(i)) =~= month_day_text(t) + seq![' '] + clock_text(t));
}

/// The format `%Y-%m-%d %H:%M:%S` is plain and writes year, month, day and
/// clock reading.
proof fn lemma_full_format(t: LocalDateTime, format: Seq<char>)
    requires
        format == seq![
            '%',
            'Y',
            '-',
            '%',
            'm',
            '-',
            '%',
            'd',
            ' ',
            '%',
            'H',
            ':',
            '%',
            'M',
            ':',
            '%',
            'S',
        ],
    ensures
        plain_format(format),
        rendered(t, format) == year_text(t.date.year as int) + seq!['-'] + month_day_text(t)
            + seq![' '] + clock_text(t),
{
    assert(format.skip(0) =~= format);
    assert(format.skip(3) =~= seq![
        '%',
        'm',
        '-',
        '%',
        'd',
        ' ',
        '%',
        'H',
        ':',
        '%',
        'M',
        ':',
        '%',
        'S',
    ]);
    lemma_month_day_format(t, format, 3);
    lemma_conversion_at(t, format, 0);
    lemma_literal_at(t, format, 2);
    assert(rendered(t, format) =~= year_text(t.date.year as int) + seq!['-'] + month_day_text(t)
        + seq![' '] + clock_text(t));
}

/// Writes the end time as it is shown at `now`.
pub fn format_eta(end: &LocalDateTime, now: &LocalDateTime) -> (text: String)
    requires
        end.wf(),
    ensures
        text@ == eta_text(*end, *now),
{
    if end.date.year == now.date.year && end.date.month == now.date.month && end.date.day
        == now.date.day {
        proof {
            reveal_strlit("%H:%M:%S");
            let format = "%H:%M:%S"@;
            assert(format.skip(0) =~= format);
            assert(format =~= seq!['%', 'H', ':', '%', 'M', ':', '%', 'S']);
            lemma_clock_format(*end, format, 0);
        }
        format_local(end, "%H:%M:%S")
    } else if end.date.year == now.date.year {
        proof {
            reveal_strlit("%m-%d %H:%M:%S");
            let format = "%m-%d %H:%M:%S"@;
            assert(format.skip(0) =~= format);
            assert(format =~= seq![
                '%',
                'm',
                '-',
                '%',
                'd',
                ' ',
                '%',
                'H',
                ':',
                '%',
                'M',
                ':',
                '%',
                'S',
            ]);
            lemma_month_day_format(*end, format, 0);
        }
        format_local(end, "%m-%d %H:%M:%S")
    } else {
        proof {
            reveal_strlit("%Y-%m-%d %H:%M:%S");
            let format = "%Y-%m-%d %H:%M:%S"@;
            assert(format =~= seq![
                '%',
                'Y',
                '-',
                '%',
                'm',
                '-',
                '%',
                'd',
                ' ',
                '%',
                'H',
                ':',
                '%',
                'M',
                ':',
                '%',
                'S',
            ]);
            lemma_full_format(*end, format);
        }
        format_local(end, "%Y-%m-%d %H:%M:%S")
    }
}

} // verus!
