use zzsleep::calendar::{ClockTime, Instant};
use zzsleep::expr::{
    copy_tokens, ends_with_z, parse_time_expr, read_span, single_token_expr, sum_spans,
    ParseError, Span, SpanSum, TimeExpr, Unit,
};
use zzsleep::number::{parse_signed_prefix, parse_unsigned, read_magnitude};

fn tokens(v: &[&str]) -> Vec<String> {
    v.iter().map(|s| s.to_string()).collect()
}

#[test]
fn unsigned_literals() {
    assert_eq!(parse_unsigned("0"), Some(0));
    assert_eq!(parse_unsigned("10"), Some(10));
    assert_eq!(parse_unsigned("+5"), Some(5));
    assert_eq!(parse_unsigned("007"), Some(7));
    assert_eq!(parse_unsigned("18446744073709551615"), Some(u64::MAX));
    assert_eq!(parse_unsigned("18446744073709551616"), None);
    assert_eq!(parse_unsigned("000000000000000000000000000000000000042"), Some(42));
    assert_eq!(parse_unsigned(""), None);
    assert_eq!(parse_unsigned("+"), None);
    assert_eq!(parse_unsigned("-5"), None);
    assert_eq!(parse_unsigned("-0"), None);
    assert_eq!(parse_unsigned("++5"), None);
    assert_eq!(parse_unsigned("5 "), None);
    assert_eq!(parse_unsigned(" 5"), None);
    assert_eq!(parse_unsigned("1_000"), None);
    assert_eq!(parse_unsigned("12a"), None);
    assert_eq!(parse_unsigned("٣"), None);
}

#[test]
fn unsigned_literals_agree_with_std() {
    for text in ["0", "10", "+5", "007", "", "+", "-", "-5", "5x", "18446744073709551615",
        "18446744073709551616", "99999999999999999999999", "+-5", "0x10", "1e3"]
    {
        assert_eq!(parse_unsigned(text), text.parse::<u64>().ok(), "{text:?}");
    }
}

#[test]
fn signed_literals_agree_with_std() {
    for text in ["0", "10", "+5", "-5", "-0", "", "+", "-", "--5", "+-5", "5x", "-5x",
        "9223372036854775807", "9223372036854775808", "-9223372036854775808",
        "-9223372036854775809", "-00000000000000000000000000000000000009"]
    {
        let len = text.chars().count();
        assert_eq!(parse_signed_prefix(text, len), text.parse::<i64>().ok(), "{text:?}");
    }
}

#[test]
fn signed_prefix_stops_where_told() {
    assert_eq!(parse_signed_prefix("-15m", 3), Some(-15));
    assert_eq!(parse_signed_prefix("-15m", 2), Some(-1));
    assert_eq!(parse_signed_prefix("-15m", 4), None);
    assert_eq!(parse_signed_prefix("-15m", 1), None);
    assert_eq!(parse_signed_prefix("-15m", 0), None);
}

#[test]
fn magnitude_within_limit() {
    assert_eq!(read_magnitude("a123b", 1, 4, 123), Some(123));
    assert_eq!(read_magnitude("a123b", 1, 4, 122), None);
    assert_eq!(read_magnitude("a123b", 1, 1, 122), None);
    assert_eq!(read_magnitude("a123b", 0, 4, 1000), None);
    assert_eq!(read_magnitude("é42", 1, 3, 50), Some(42));
}

#[test]
fn spans() {
    assert_eq!(read_span("2h"), Some(Span { count: 2, unit: Unit::Hours }));
    assert_eq!(read_span("5m"), Some(Span { count: 5, unit: Unit::Minutes }));
    assert_eq!(read_span("30s"), Some(Span { count: 30, unit: Unit::Seconds }));
    assert_eq!(read_span("-5m"), Some(Span { count: -5, unit: Unit::Minutes }));
    assert_eq!(read_span("+5m"), Some(Span { count: 5, unit: Unit::Minutes }));
    assert_eq!(
        read_span("-9223372036854775808s"),
        Some(Span { count: i64::MIN, unit: Unit::Seconds })
    );
    assert_eq!(read_span("9223372036854775808s"), None);
    assert_eq!(read_span("h"), None);
    assert_eq!(read_span(""), None);
    assert_eq!(read_span("5"), None);
    assert_eq!(read_span("5H"), None);
    assert_eq!(read_span("5d"), None);
    assert_eq!(read_span("5 m"), None);
    assert_eq!(read_span("5mm"), None);
    assert_eq!(read_span("1.5h"), None);
}

#[test]
fn sums_of_spans() {
    assert_eq!(sum_spans(&tokens(&["1h", "30m", "45s"])), SpanSum::Total(5445));
    assert_eq!(sum_spans(&tokens(&["45s", "1h", "30m"])), SpanSum::Total(5445));
    assert_eq!(sum_spans(&tokens(&["1h", "1h"])), SpanSum::Total(7200));
    assert_eq!(sum_spans(&tokens(&["1h", "-30m"])), SpanSum::Total(1800));
    assert_eq!(sum_spans(&tokens(&["-90s"])), SpanSum::Total(-90));
    assert_eq!(sum_spans(&tokens(&["-1m", "-1s"])), SpanSum::Total(-61));
    assert_eq!(sum_spans(&tokens(&[])), SpanSum::Total(0));
    assert_eq!(sum_spans(&tokens(&["1h", "abc"])), SpanSum::Mixed);
    assert_eq!(sum_spans(&tokens(&["abc", "1h"])), SpanSum::Mixed);
    assert_eq!(sum_spans(&tokens(&["10"])), SpanSum::Mixed);
}

#[test]
fn sums_of_spans_at_the_limits() {
    assert_eq!(sum_spans(&tokens(&["9223372036854775807s"])), SpanSum::Total(i64::MAX));
    assert_eq!(sum_spans(&tokens(&["-9223372036854775808s"])), SpanSum::Total(i64::MIN));
    assert_eq!(sum_spans(&tokens(&["9223372036854775807s", "1s"])), SpanSum::Overflow);
    assert_eq!(sum_spans(&tokens(&["-9223372036854775808s", "-1s"])), SpanSum::Overflow);
    assert_eq!(sum_spans(&tokens(&["9223372036854775807h"])), SpanSum::Overflow);
    assert_eq!(sum_spans(&tokens(&["2562047788015215h"])), SpanSum::Total(9223372036854774000));
    assert_eq!(sum_spans(&tokens(&["2562047788015216h"])), SpanSum::Overflow);
    // Partial sums may leave 64 bits as long as the whole sum comes back.
    assert_eq!(
        sum_spans(&tokens(&["9223372036854775807h", "5s", "-9223372036854775807h"])),
        SpanSum::Total(5)
    );
    assert_eq!(
        sum_spans(&tokens(&["9223372036854775807h", "-9223372036854775807m", "1s"])),
        SpanSum::Overflow
    );
    assert_eq!(
        sum_spans(&tokens(&["153722867280912930m", "-9223372036854775800s", "7s"])),
        SpanSum::Total(7)
    );
}

#[test]
fn a_number_alone_is_a_delay() {
    assert_eq!(parse_time_expr(&tokens(&["10"])), Ok(TimeExpr::After(10)));
    assert_eq!(parse_time_expr(&tokens(&["0"])), Ok(TimeExpr::After(0)));
    assert_eq!(parse_time_expr(&tokens(&["+7"])), Ok(TimeExpr::After(7)));
    assert_eq!(
        parse_time_expr(&tokens(&["9223372036854775807"])),
        Ok(TimeExpr::After(i64::MAX))
    );
    assert_eq!(parse_time_expr(&tokens(&["9223372036854775808"])), Err(ParseError::OutOfRange));
    assert_eq!(parse_time_expr(&tokens(&["18446744073709551615"])), Err(ParseError::OutOfRange));
}

#[test]
fn durations_in_any_order() {
    let expected = Ok(TimeExpr::After(2 * 3600 + 5 * 60 + 30));
    assert_eq!(parse_time_expr(&tokens(&["2h", "5m", "30s"])), expected);
    assert_eq!(parse_time_expr(&tokens(&["2h", "30s", "5m"])), expected);
    assert_eq!(parse_time_expr(&tokens(&["5m", "2h", "30s"])), expected);
    assert_eq!(parse_time_expr(&tokens(&["5m", "30s", "2h"])), expected);
    assert_eq!(parse_time_expr(&tokens(&["30s", "2h", "5m"])), expected);
    assert_eq!(parse_time_expr(&tokens(&["30s", "5m", "2h"])), expected);
}

#[test]
fn repeated_units_are_summed() {
    assert_eq!(parse_time_expr(&tokens(&["1h", "1h"])), Ok(TimeExpr::After(7200)));
    assert_eq!(parse_time_expr(&tokens(&["30s", "30s", "1m"])), Ok(TimeExpr::After(120)));
}

#[test]
fn one_bad_token_spoils_the_sum() {
    assert_eq!(
        parse_time_expr(&tokens(&["2h", "abc"])),
        Err(ParseError::TooManyArguments(tokens(&["2h", "abc"])))
    );
    assert_eq!(
        parse_time_expr(&tokens(&["2h", "10"])),
        Err(ParseError::TooManyArguments(tokens(&["2h", "10"])))
    );
    assert_eq!(
        parse_time_expr(&tokens(&["12:30", "5m"])),
        Err(ParseError::TooManyArguments(tokens(&["12:30", "5m"])))
    );
    assert_eq!(
        parse_time_expr(&tokens(&["10", "20"])),
        Err(ParseError::TooManyArguments(tokens(&["10", "20"])))
    );
}

#[test]
fn no_tokens() {
    assert_eq!(parse_time_expr(&tokens(&[])), Err(ParseError::NoArguments));
}

#[test]
fn unknown_single_tokens() {
    for text in ["abc", "", "12:", "25:00", "12:60", "12:30:61", "2026-02-20", "h",
        "20260220T123000", "20260230T123000Z", "Z", "-5", "1.5h"]
    {
        assert_eq!(
            parse_time_expr(&tokens(&[text])),
            Err(ParseError::UnrecognizedArgument(text.to_string())),
            "{text:?}"
        );
    }
}

#[test]
fn clock_tokens() {
    let at = |hour, minute, second| {
        Ok(TimeExpr::Clock(ClockTime { hour, minute, second, nano: 0 }))
    };
    assert_eq!(parse_time_expr(&tokens(&["12:30"])), at(12, 30, 0));
    assert_eq!(parse_time_expr(&tokens(&["00:00"])), at(0, 0, 0));
    assert_eq!(parse_time_expr(&tokens(&["23:59"])), at(23, 59, 0));
    assert_eq!(parse_time_expr(&tokens(&["12:30:45"])), at(12, 30, 45));
    assert_eq!(parse_time_expr(&tokens(&["08:00:00"])), at(8, 0, 0));
    assert_eq!(
        parse_time_expr(&tokens(&["23:59:60"])),
        Ok(TimeExpr::Clock(ClockTime { hour: 23, minute: 59, second: 59, nano: 1_000_000_000 }))
    );
}

#[test]
fn timestamp_tokens() {
    // 2026-02-20T03:30:00Z
    assert_eq!(
        parse_time_expr(&tokens(&["20260220T123000+0900"])),
        Ok(TimeExpr::At(Instant { timestamp: 1771558200, nano: 0 }))
    );
    assert_eq!(
        parse_time_expr(&tokens(&["20260220T123000-0330"])),
        Ok(TimeExpr::At(Instant { timestamp: 1771603200, nano: 0 }))
    );
    // 2026-02-20T12:30:00Z
    assert_eq!(
        parse_time_expr(&tokens(&["20260220T123000Z"])),
        Ok(TimeExpr::At(Instant { timestamp: 1771590600, nano: 0 }))
    );
    assert_eq!(
        parse_time_expr(&tokens(&["19700101T000000Z"])),
        Ok(TimeExpr::At(Instant { timestamp: 0, nano: 0 }))
    );
    assert_eq!(
        parse_time_expr(&tokens(&["19691231T235959Z"])),
        Ok(TimeExpr::At(Instant { timestamp: -1, nano: 0 }))
    );
}

#[test]
fn formats_in_their_order() {
    let token = "x".to_string();
    let minutes = ClockTime { hour: 1, minute: 2, second: 0, nano: 0 };
    let seconds = ClockTime { hour: 3, minute: 4, second: 5, nano: 0 };
    let with_offset = Instant { timestamp: 6, nano: 7 };
    let utc = Instant { timestamp: 8, nano: 9 };
    assert_eq!(
        single_token_expr(&token, Some(minutes), Some(seconds), Some(with_offset), Some(utc)),
        Ok(TimeExpr::Clock(minutes))
    );
    assert_eq!(
        single_token_expr(&token, None, Some(seconds), Some(with_offset), Some(utc)),
        Ok(TimeExpr::Clock(seconds))
    );
    assert_eq!(
        single_token_expr(&token, None, None, Some(with_offset), Some(utc)),
        Ok(TimeExpr::At(with_offset))
    );
    // The last format counts only for a token that ends in `Z`.
    assert_eq!(
        single_token_expr(&token, None, None, None, Some(utc)),
        Err(ParseError::UnrecognizedArgument(token.clone()))
    );
    let zulu = "xZ".to_string();
    assert_eq!(single_token_expr(&zulu, None, None, None, Some(utc)), Ok(TimeExpr::At(utc)));
    assert_eq!(
        single_token_expr(&zulu, None, None, None, None),
        Err(ParseError::UnrecognizedArgument(zulu.clone()))
    );
}

#[test]
fn the_letter_z_at_the_end() {
    assert!(ends_with_z("20260220T123000Z"));
    assert!(ends_with_z("Z"));
    assert!(!ends_with_z("z"));
    assert!(!ends_with_z("Za"));
    assert!(!ends_with_z(""));
}

#[test]
fn tokens_are_copied() {
    let source = tokens(&["a", "", "ü"]);
    assert_eq!(copy_tokens(&source), source);
    assert_eq!(copy_tokens(&[]), Vec::<String>::new());
}

#[test]
fn messages() {
    assert_eq!(ParseError::NoArguments.message(), "no arguments provided");
    assert_eq!(
        ParseError::UnrecognizedArgument("abc".to_string()).message(),
        "could not parse argument: abc"
    );
    assert_eq!(
        ParseError::TooManyArguments(tokens(&["12:30", "5\"m"])).message(),
        "could not parse arguments: [\"12:30\", \"5\\\"m\"]"
    );
    assert_eq!(ParseError::AmbiguousLocalTime.message(), "failed to convert local datetime");
    assert_eq!(ParseError::OutOfRange.message(), "end time out of range");
}
