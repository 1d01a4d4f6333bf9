//! The grammar of time expressions: what a list of tokens asks for, before
//! any clock is consulted.

use crate::args::texts;
use crate::calendar::{ClockTime, Instant};
use crate::formats::{
    naive_time_in, offset_datetime_in, read_naive_time, read_offset_datetime, read_utc_datetime,
    utc_datetime_in,
};
use crate::number::{
    is_digit, lemma_unsigned_literal_of_decimal, padded, parse_signed_prefix, parse_unsigned,
    signed_literal, unsigned_literal,
};
use vstd::prelude::*;
use vstd::string::*;

verus! {

/// Why a list of tokens gives no end time.
#[derive(Clone, Debug, PartialEq, Eq)]
pub enum ParseError {
    /// There are no tokens.
    NoArguments,
    /// The one token is of no known form; it is carried along.
    UnrecognizedArgument(String),
    /// Several tokens that are not all durations; they are carried along.
    TooManyArguments(Vec<String>),
    /// The local clock never shows the time asked for on that day, or shows
    /// it twice.
    AmbiguousLocalTime,
    /// The end time lies outside the range of representable times.
    OutOfRange,
}

/// A `ParseError` with the texts it carries as sequences of characters.
pub enum ParseErrorView {
    NoArguments,
    UnrecognizedArgument(Seq<char>),
    TooManyArguments(Seq<Seq<char>>),
    AmbiguousLocalTime,
    OutOfRange,
}

impl View for ParseError {
    type V = ParseErrorView;

    open spec fn view(&self) -> ParseErrorView {
        match *self {
            ParseError::NoArguments => ParseErrorView::NoArguments,
            ParseError::UnrecognizedArgument(token) => ParseErrorView::UnrecognizedArgument(
                token@,
            ),
            ParseError::TooManyArguments(tokens) => ParseErrorView::TooManyArguments(
                texts(tokens@),
            ),
            ParseError::AmbiguousLocalTime => ParseErrorView::AmbiguousLocalTime,
            ParseError::OutOfRange => ParseErrorView::OutOfRange,
        }
    }
}

/// The text that std's `Debug` writes for a list of strings: the strings in
/// double quotes with their escapes, between square brackets.
pub uninterp spec fn debug_text(tokens: Seq<Seq<char>>) -> Seq<char>;

/// Formats a list of tokens with std's `Debug`, through `format!`. Not
/// proved: the contract only names the result, as a function of the tokens.
#[verifier::external_body]
fn debug_list(tokens: &Vec<String>) -> (text: String)
    ensures
        text@ == debug_text(texts(tokens@)),
{
    format!("{:?}", tokens)
}

/// What an error says to the user.
pub open spec fn message_text(error: ParseErrorView) -> Seq<char> {
    match error {
        ParseErrorView::NoArguments => "no arguments provided"@,
        ParseErrorView::UnrecognizedArgument(token) => "could not parse argument: "@ + token,
        ParseErrorView::TooManyArguments(tokens) => "could not parse arguments: "@ + debug_text(
            tokens,
        ),
        ParseErrorView::AmbiguousLocalTime => "failed to convert local datetime"@,
        ParseErrorView::OutOfRange => "end time out of range"@,
    }
}

impl ParseError {
    /// What the error says to the user, with the input that it carries.
    pub fn message(&self) -> (text: String)
        ensures
            text@ == message_text(self@),
    {
        match self {
            ParseError::NoArguments => String::from_str("no arguments provided"),
            ParseError::UnrecognizedArgument(token) => {
                String::from_str("could not parse argument: ").concat(token.as_str())
            },
            ParseError::TooManyArguments(tokens) => {
                let list = debug_list(tokens);
                String::from_str("could not parse arguments: ").concat(list.as_str())
            },
            ParseError::AmbiguousLocalTime => String::from_str("failed to convert local datetime"),
            ParseError::OutOfRange => String::from_str("end time out of range"),
        }
    }
}

/// What a list of tokens asks for.
#[derive(Clone, Copy, Debug, PartialEq, Eq, Structural)]
pub enum TimeExpr {
    /// So many seconds after now.
    After(i64),
    /// The next time that the local clock shows this reading.
    Clock(ClockTime),
    /// A point in time that the tokens give in full.
    At(Instant),
}

/// The unit behind the number of a duration token.
#[derive(Clone, Copy, Debug, PartialEq, Eq, Structural)]
pub enum Unit {
    Hours,
    Minutes,
    Seconds,
}

/// A duration token: a whole number of one unit.
#[derive(Clone, Copy, Debug, PartialEq, Eq, Structural)]
pub struct Span {
    pub count: i64,
    pub unit: Unit,
}

impl Unit {
    /// The length of the unit in seconds.
    pub open spec fn seconds(self) -> int {
        match self {
            Unit::Hours => 3600,
            Unit::Minutes => 60,
            Unit::Seconds => 1,
        }
    }
}

impl Span {
    /// The length of the span in seconds.
    pub open spec fn seconds(self) -> int {
        self.count * self.unit.seconds()
    }
}

/// The unit that a suffix letter stands for: `h`, `m` or `s`.
pub open spec fn unit_of(suffix: char) -> Option<Unit> {
    if suffix == 'h' {
        Some(Unit::Hours)
    } else if suffix == 'm' {
        Some(Unit::Minutes)
    } else if suffix == 's' {
        Some(Unit::Seconds)
    } else {
        None
    }
}

/// The duration that a token denotes: a signed integer literal followed by a
/// unit letter. `None` for any other text.
pub open spec fn span_of(token: Seq<char>) -> Option<Span> {
    if token.len() == 0 {
        None
    } else {
        match (unit_of(token.last()), signed_literal(token.drop_last())) {
            (Some(unit), Some(count)) => Some(Span { count: count as i64, unit }),
            _ => None,
        }
    }
}

/// The seconds that a token adds to a sum of durations.
pub open spec fn span_seconds(token: Seq<char>) -> int {
    match span_of(token) {
        Some(span) => span.seconds(),
        None => 0,
    }
}

/// Every token is a duration token.
pub open spec fn all_spans(tokens: Seq<Seq<char>>) -> bool {
    forall|i: int| 0 <= i < tokens.len() ==> span_of(#[trigger] tokens[i]) is Some
}

/// The sum of the seconds of all tokens.
pub open spec fn total_seconds(tokens: Seq<Seq<char>>) -> int
    decreases tokens.len(),
{
    if tokens.len() == 0 {
        0
    } else {
        total_seconds(tokens.drop_last()) + span_seconds(tokens.last())
    }
}

/// A delay of so many seconds, where that number fits in 64 bits.
pub open spec fn delay_expr(seconds: int) -> Result<TimeExpr, ParseErrorView> {
    if i64::MIN <= seconds <= i64::MAX {
        Ok(TimeExpr::After(seconds as i64))
    } else {
        Err(ParseErrorView::OutOfRange)
    }
}

/// What a single token asks for that is neither a number nor a duration,
/// given what it reads as under each of the four formats, tried in this
/// order: hours and minutes; hours, minutes and seconds; a timestamp with a
/// UTC offset; and, for a token that ends in `Z`, the timestamp before the
/// `Z`, taken as UTC.
pub open spec fn single_expr(
    token: Seq<char>,
    minutes: Option<ClockTime>,
    seconds: Option<ClockTime>,
    with_offset: Option<Instant>,
    utc: Option<Instant>,
) -> Result<TimeExpr, ParseErrorView> {
    if let Some(time) = minutes {
        Ok(TimeExpr::Clock(time))
    } else if let Some(time) = seconds {
        Ok(TimeExpr::Clock(time))
    } else if let Some(at) = with_offset {
        Ok(TimeExpr::At(at))
    } else if token.len() > 0 && token.last() == 'Z' && utc is Some {
        Ok(TimeExpr::At(utc->0))
    } else {
        Err(ParseErrorView::UnrecognizedArgument(token))
    }
}

/// What a list of tokens asks for. The rules are tried in order and the first
/// that applies decides: no token at all; one unsigned integer, as seconds;
/// duration tokens only, as the sum of their seconds; then, for a single
/// token, the clock and timestamp formats.
pub open spec fn time_expr(tokens: Seq<Seq<char>>) -> Result<TimeExpr, ParseErrorView> {
    if tokens.len() == 0 {
        Err(ParseErrorView::NoArguments)
    } else if tokens.len() == 1 && unsigned_literal(tokens[0]) is Some {
        delay_expr(unsigned_literal(tokens[0])->0)
    } else if all_spans(tokens) {
        delay_expr(total_seconds(tokens))
    } else if tokens.len() != 1 {
        Err(ParseErrorView::TooManyArguments(tokens))
    } else {
        single_expr(
            tokens[0],
            naive_time_in(tokens[0], "%H:%M"@),
            naive_time_in(tokens[0], "%H:%M:%S"@),
            offset_datetime_in(tokens[0], "%Y%m%dT%H%M%S%z"@),
            utc_datetime_in(tokens[0].drop_last(), "%Y%m%dT%H%M%S"@),
        )
    }
}

/// The view of an outcome: that of its error, where it is one.
pub open spec fn expr_view(outcome: Result<TimeExpr, ParseError>) -> Result<
    TimeExpr,
    ParseErrorView,
> {
    match outcome {
        Ok(expr) => Ok(expr),
        Err(error) => Err(error@),
    }
}

/// A single token that writes a number up to `u64::MAX` in decimal asks for
/// a delay of that many seconds, as far as the number fits in 64 bits with a
/// sign.
pub proof fn lemma_number_is_delay(n: nat)
    requires
        n <= u64::MAX,
    ensures
        time_expr(seq![padded(n, 1)]) == delay_expr(n as int),
{
    lemma_unsigned_literal_of_decimal(n);
}

/// Taking one token out of a list takes its seconds out of the sum.
pub proof fn lemma_total_without(tokens: Seq<Seq<char>>, i: int)
    requires
        0 <= i < tokens.len(),
    ensures
        total_seconds(tokens) == total_seconds(tokens.remove(i)) + span_seconds(tokens[i]),
    decreases tokens.len(),
{
    if i == tokens.len() - 1 {
        assert(tokens.remove(i) =~= tokens.drop_last());
    } else {
        lemma_total_without(tokens.drop_last(), i);
        assert(tokens.remove(i).drop_last() =~= tokens.drop_last().remove(i));
        assert(tokens.remove(i).last() == tokens.last());
    }
}

/// The sum of durations does not depend on the order of the tokens: two
/// lists with the same tokens, each as often in one as in the other, are
/// durations together or not at all, and have the same sum.
pub proof fn lemma_sum_ignores_order(a: Seq<Seq<char>>, b: Seq<Seq<char>>)
    requires
        a.to_multiset() == b.to_multiset(),
    ensures
        all_spans(a) == all_spans(b),
        total_seconds(a) == total_seconds(b),
        span_sum(a) == span_sum(b),
    decreases a.len(),
{
    a.to_multiset_ensures();
    b.to_multiset_ensures();
    if all_spans(a) {
        assert forall|j: int| 0 <= j < b.len() implies span_of(#[trigger] b[j]) is Some by {
            assert(b.contains(b[j]));
            assert(b.to_multiset().count(b[j]) > 0);
            assert(a.to_multiset().count(b[j]) > 0);
            assert(a.contains(b[j]));
            let i = choose|i: int| 0 <= i < a.len() && a[i] == b[j];
            assert(span_of(a[i]) is Some);
        }
    }
    if all_spans(b) {
        assert forall|i: int| 0 <= i < a.len() implies span_of(#[trigger] a[i]) is Some by {
            assert(a.contains(a[i]));
            assert(a.to_multiset().count(a[i]) > 0);
            assert(b.to_multiset().count(a[i]) > 0);
            assert(b.contains(a[i]));
            let j = choose|j: int| 0 <= j < b.len() && b[j] == a[i];
            assert(span_of(b[j]) is Some);
        }
    }
    assert(a.len() == b.len());
    if a.len() > 0 {
        let last = a.last();
        assert(a.contains(last));
        assert(a.to_multiset().count(last) > 0);
        assert(b.to_multiset().count(last) > 0);
        assert(b.contains(last));
        let j = choose|j: int| 0 <= j < b.len() && b[j] == last;
        assert(a.drop_last() =~= a.remove(a.len() - 1));
        assert(a.drop_last().to_multiset() =~= a.to_multiset().remove(last));
        assert(b.remove(j).to_multiset() =~= b.to_multiset().remove(last));
        lemma_sum_ignores_order(a.drop_last(), b.remove(j));
        lemma_total_without(b, j);
    }
}

/// For duration tokens in any order the expression is the same: the delay of
/// the sum of their seconds.
pub proof fn lemma_durations_in_any_order(a: Seq<Seq<char>>, b: Seq<Seq<char>>)
    requires
        a.to_multiset() == b.to_multiset(),
        all_spans(a),
    ensures
        time_expr(a) == time_expr(b),
        a.len() > 0 ==> time_expr(a) == delay_expr(total_seconds(a)),
{
    a.to_multiset_ensures();
    b.to_multiset_ensures();
    lemma_sum_ignores_order(a, b);
    assert(a.len() == b.len());
    if a.len() == 1 {
        assert(b.contains(b[0]));
        assert(b.to_multiset().count(b[0]) > 0);
        assert(a.to_multiset().count(b[0]) > 0);
        assert(a.contains(b[0]));
        assert(a[0] == b[0]);
        lemma_span_is_no_number(a[0]);
    }
}

/// A duration token is no unsigned integer literal, as it ends in a letter.
pub proof fn lemma_span_is_no_number(token: Seq<char>)
    requires
        span_of(token) is Some,
    ensures
        unsigned_literal(token) is None,
{
    let last = token.last();
    assert(!is_digit(last));
    if token[0] == '+' {
        let digits = token.skip(1);
        if digits.len() > 0 {
            assert(digits[digits.len() - 1] == last);
        }
    }
}

/// A list with a token that is no duration never gives the sum of the
/// others: it is a delay only as one unsigned integer, and with more than one
/// token it is no expression at all.
pub proof fn lemma_no_partial_sum(tokens: Seq<Seq<char>>, i: int)
    requires
        0 <= i < tokens.len(),
        span_of(tokens[i]) is None,
    ensures
        time_expr(tokens) matches Ok(TimeExpr::After(_)) ==> tokens.len() == 1 && unsigned_literal(
            tokens[0],
        ) is Some,
        tokens.len() > 1 ==> time_expr(tokens) == Err::<TimeExpr, ParseErrorView>(
            ParseErrorView::TooManyArguments(tokens),
        ),
{
}

/// Reads a token as a duration: a signed integer literal and a unit letter.
pub fn read_span(token: &str) -> (span: Option<Span>)
    ensures
        span == span_of(token@),
{
    let len = token.unicode_len();
    if len == 0 {
        return None;
    }
    let suffix = token.get_char(len - 1);
    let unit = if suffix == 'h' {
        Unit::Hours
    } else if suffix == 'm' {
        Unit::Minutes
    } else if suffix == 's' {
        Unit::Seconds
    } else {
        return None;
    };
    proof {
        assert(token@.take(len - 1) =~= token@.drop_last());
    }
    match parse_signed_prefix(token, len - 1) {
        Some(count) => Some(Span { count, unit }),
        None => None,
    }
}

/// The sum of a list of tokens read as durations.
#[derive(Clone, Copy, Debug, PartialEq, Eq, Structural)]
pub enum SpanSum {
    /// Some token is not a duration.
    Mixed,
    /// All tokens are durations, and their sum does not fit in 64 bits.
    Overflow,
    /// All tokens are durations, and this is the sum of their seconds.
    Total(i64),
}

/// The sum that a list of tokens has as durations.
pub open spec fn span_sum(tokens: Seq<Seq<char>>) -> SpanSum {
    if !all_spans(tokens) {
        SpanSum::Mixed
    } else if i64::MIN <= total_seconds(tokens) <= i64::MAX {
        SpanSum::Total(total_seconds(tokens) as i64)
    } else {
        SpanSum::Overflow
    }
}

spec fn abs(x: int) -> int {
    if x < 0 {
        -x
    } else {
        x
    }
}

/// Adds up the durations of a list of tokens. The hours, minutes and seconds
/// are summed apart in 128 bits, where they cannot overflow, so that the sum
/// is exact whatever partial sums the order of the tokens gives.
pub fn sum_spans(tokens: &[String]) -> (sum: SpanSum)
    ensures
        sum == span_sum(texts(tokens@)),
{
    let ghost all = texts(tokens@);
    let mut hours: i128 = 0;
    let mut minutes: i128 = 0;
    let mut seconds: i128 = 0;
    let mut i: usize = 0;
    while i < tokens.len()
        invariant
            0 <= i <= tokens@.len(),
            all == texts(tokens@),
            all_spans(all.take(i as int)),
            3600 * hours + 60 * minutes + seconds == total_seconds(all.take(i as int)),
            abs(hours as int) + abs(minutes as int) + abs(seconds as int) <= i
                * 0x8000_0000_0000_0000,
        decreases tokens@.len() - i,
    {
        let ghost seen = all.take(i as int);
        let ghost next = all.take(i + 1);
        proof {
            assert(next.drop_last() =~= seen);
            assert(next.last() == tokens@[i as int]@);
        }
        match read_span(tokens[i].as_str()) {
            None => {
                proof {
                    assert(span_of(all[i as int]) is None);
                }
                return SpanSum::Mixed;
            },
            Some(span) => {
                proof {
                    assert(all_spans(next)) by {
                        assert forall|j: int| 0 <= j < next.len() implies span_of(
                            #[trigger] next[j],
                        ) is Some by {
                            if j < i {
                                assert(next[j] == seen[j]);
                            }
                        }
                    }
                    assert(total_seconds(next) == total_seconds(seen) + span.seconds());
                }
                match span.unit {
                    Unit::Hours => {
                        hours = hours + span.count as i128;
                    },
                    Unit::Minutes => {
                        minutes = minutes + span.count as i128;
                    },
                    Unit::Seconds => {
                        seconds = seconds + span.count as i128;
                    },
                }
            },
        }
        i += 1;
    }
    proof {
        assert(all.take(tokens@.len() as int) =~= all);
    }
    // 3600 * whole + rest is the sum, with a rest of less than two hours.
    let whole: i128 = hours + minutes / 60 + seconds / 3600;
    let rest: i128 = 60 * (minutes % 60) + seconds % 3600;
    if whole > 0x4000_0000_0000_0000 || whole < -0x4000_0000_0000_0000 {
        return SpanSum::Overflow;
    }
    let total: i128 = 3600 * whole + rest;
    if total < i64::MIN as i128 || total > i64::MAX as i128 {
        SpanSum::Overflow
    } else {
        SpanSum::Total(total as i64)
    }
}

/// A copy of a list of tokens.
pub fn copy_tokens(tokens: &[String]) -> (copy: Vec<String>)
    ensures
        texts(copy@) == texts(tokens@),
{
    let mut copy: Vec<String> = Vec::new();
    let mut i: usize = 0;
    while i < tokens.len()
        invariant
            0 <= i <= tokens@.len(),
            copy@.len() == i,
            forall|j: int| 0 <= j < i ==> copy@[j]@ == tokens@[j]@,
        decreases tokens@.len() - i,
    {
        copy.push(tokens[i].clone());
        i += 1;
    }
    proof {
        assert(texts(copy@) =~= texts(tokens@));
    }
    copy
}

/// What a single token asks for that is neither a number nor a duration,
/// given what chrono reads it as under each of the four formats.
pub fn single_token_expr(
    token: &String,
    minutes: Option<ClockTime>,
    seconds: Option<ClockTime>,
    with_offset: Option<Instant>,
    utc: Option<Instant>,
) -> (outcome: Result<TimeExpr, ParseError>)
    ensures
        expr_view(outcome) == single_expr(token@, minutes, seconds, with_offset, utc),
{
    if let Some(time) = minutes {
        return Ok(TimeExpr::Clock(time));
    }
    if let Some(time) = seconds {
        return Ok(TimeExpr::Clock(time));
    }
    if let Some(at) = with_offset {
        return Ok(TimeExpr::At(at));
    }
    if ends_with_z(token.as_str()) {
        if let Some(at) = utc {
            return Ok(TimeExpr::At(at));
        }
    }
    Err(ParseError::UnrecognizedArgument(token.clone()))
}

/// Whether a token ends in the letter `Z`.
pub fn ends_with_z(token: &str) -> (ends: bool)
    ensures
        ends == (token@.len() > 0 && token@.last() == 'Z'),
{
    let len = token.unicode_len();
    len > 0 && token.get_char(len - 1) == 'Z'
}

/// Reads a list of tokens as a time expression.
pub fn parse_time_expr(tokens: &[String]) -> (outcome: Result<TimeExpr, ParseError>)
    ensures
        expr_view(outcome) == time_expr(texts(tokens@)),
{
    let ghost all = texts(tokens@);
    if tokens.len() == 0 {
        return Err(ParseError::NoArguments);
    }
    proof {
        assert(all[0] == tokens@[0]@);
    }
    if tokens.len() == 1 {
        if let Some(n) = parse_unsigned(tokens[0].as_str()) {
            return if n <= i64::MAX as u64 {
                Ok(TimeExpr::After(n as i64))
            } else {
                Err(ParseError::OutOfRange)
            };
        }
    }
    match sum_spans(tokens) {
        SpanSum::Total(total) => {
            return Ok(TimeExpr::After(total));
        },
        SpanSum::Overflow => {
            return Err(ParseError::OutOfRange);
        },
        SpanSum::Mixed => {},
    }
    if tokens.len() != 1 {
        return Err(ParseError::TooManyArguments(copy_tokens(tokens)));
    }
    let token = &tokens[0];
    let text = token.as_str();
    let minutes = read_naive_time(text, "%H:%M");
    let seconds = read_naive_time(text, "%H:%M:%S");
    let with_offset = read_offset_datetime(text, "%Y%m%dT%H%M%S%z");
    let utc = if ends_with_z(text) {
        let len = text.unicode_len();
        let head = text.substring_char(0, len - 1);
        proof {
            assert(head@ =~= text@.drop_last());
        }
        read_utc_datetime(head, "%Y%m%dT%H%M%S")
    } else {
        None
    };
    single_token_expr(token, minutes, seconds, with_offset, utc)
}

} // verus!
