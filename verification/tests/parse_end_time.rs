use chrono::{DateTime, Datelike, Duration, Local, TimeZone, Timelike};
use zzsleep::{parse_end_time, CivilDate, ClockTime, LocalDateTime, ParseError};

fn args(v: &[&str]) -> Vec<String> {
    v.iter().map(|s| s.to_string()).collect()
}

fn to_local(dt: DateTime<Local>) -> LocalDateTime {
    LocalDateTime::new(
        dt.timestamp(),
        CivilDate { year: dt.year(), month: dt.month(), day: dt.day() },
        ClockTime {
            hour: dt.hour(),
            minute: dt.minute(),
            second: dt.second(),
            nano: dt.nanosecond(),
        },
    )
    .unwrap()
}

fn to_chrono(t: &LocalDateTime) -> DateTime<Local> {
    Local.timestamp_opt(t.timestamp, t.time.nano).unwrap()
}

fn now_fixed() -> DateTime<Local> {
    // Fixed reference: 2026-02-20 10:00:00 local time
    Local.with_ymd_and_hms(2026, 2, 20, 10, 0, 0).unwrap()
}

fn parse(v: &[&str], now: DateTime<Local>) -> Result<DateTime<Local>, ParseError> {
    parse_end_time(&args(v), to_local(now)).map(|end| to_chrono(&end))
}

#[test]
fn test_seconds_only() {
    let now = now_fixed();
    let end = parse(&["10"], now).unwrap();
    assert_eq!((end - now).num_seconds(), 10);
}

#[test]
fn test_zero_seconds() {
    let now = now_fixed();
    let end = parse(&["0"], now).unwrap();
    assert_eq!((end - now).num_seconds(), 0);
}

#[test]
fn test_hours() {
    let now = now_fixed();
    let end = parse(&["2h"], now).unwrap();
    assert_eq!((end - now).num_seconds(), 7200);
}

#[test]
fn test_minutes() {
    let now = now_fixed();
    let end = parse(&["5m"], now).unwrap();
    assert_eq!((end - now).num_seconds(), 300);
}

#[test]
fn test_seconds_unit() {
    let now = now_fixed();
    let end = parse(&["30s"], now).unwrap();
    assert_eq!((end - now).num_seconds(), 30);
}

#[test]
fn test_hours_minutes() {
    let now = now_fixed();
    let end = parse(&["2h", "5m"], now).unwrap();
    assert_eq!((end - now).num_seconds(), 7500);
}

#[test]
fn test_minutes_seconds() {
    let now = now_fixed();
    let end = parse(&["5m", "30s"], now).unwrap();
    assert_eq!((end - now).num_seconds(), 330);
}

#[test]
fn test_hours_minutes_seconds() {
    let now = now_fixed();
    let end = parse(&["1h", "30m", "45s"], now).unwrap();
    assert_eq!((end - now).num_seconds(), 5445);
}

#[test]
fn test_hhmm_future() {
    // now = 10:00:00, target = 12:30 -> same day
    let now = now_fixed();
    let end = parse(&["12:30"], now).unwrap();
    assert_eq!(end.date_naive(), now.date_naive());
    assert_eq!(end.format("%H:%M:%S").to_string(), "12:30:00");
}

#[test]
fn test_hhmm_past() {
    // now = 10:00:00, target = 08:00 -> next day
    let now = now_fixed();
    let end = parse(&["08:00"], now).unwrap();
    let expected_date = now.date_naive() + Duration::days(1);
    assert_eq!(end.date_naive(), expected_date);
    assert_eq!(end.format("%H:%M:%S").to_string(), "08:00:00");
}

#[test]
fn test_hhmmss_future() {
    let now = now_fixed();
    let end = parse(&["12:30:45"], now).unwrap();
    assert_eq!(end.date_naive(), now.date_naive());
    assert_eq!(end.format("%H:%M:%S").to_string(), "12:30:45");
}

#[test]
fn test_hhmmss_past() {
    let now = now_fixed();
    let end = parse(&["08:00:00"], now).unwrap();
    let expected_date = now.date_naive() + Duration::days(1);
    assert_eq!(end.date_naive(), expected_date);
}

#[test]
fn test_iso8601_with_tz() {
    let now = now_fixed();
    let end = parse(&["20260220T123000+0900"], now).unwrap();
    // UTC+9 12:30:00 -> UTC 03:30:00
    let utc = end.with_timezone(&chrono::Utc);
    assert_eq!(utc.format("%H:%M:%S").to_string(), "03:30:00");
    assert_eq!(utc.format("%Y-%m-%d").to_string(), "2026-02-20");
}

#[test]
fn test_iso8601_utc() {
    let now = now_fixed();
    let end = parse(&["20260220T123000Z"], now).unwrap();
    let utc = end.with_timezone(&chrono::Utc);
    assert_eq!(utc.format("%H:%M:%S").to_string(), "12:30:00");
    assert_eq!(utc.format("%Y-%m-%d").to_string(), "2026-02-20");
}

#[test]
fn test_invalid_arg() {
    let now = now_fixed();
    assert!(parse(&["abc"], now).is_err());
}

#[test]
fn test_empty_args() {
    let now = now_fixed();
    assert!(parse(&[], now).is_err());
}

#[test]
fn test_invalid_unit_combo() {
    let now = now_fixed();
    assert!(parse(&["2h", "abc"], now).is_err());
}
