//! Decimal integers as they are written in a token: digits, with an optional
//! sign in front.

use vstd::prelude::*;
use vstd::string::*;

verus! {

/// An ASCII decimal digit.
pub open spec fn is_digit(c: char) -> bool {
    '0' <= c && c <= '9'
}

/// The number that a digit stands for; zero for any other character.
pub open spec fn digit_value(c: char) -> nat {
    if is_digit(c) {
        (c as int - 48) as nat
    } else {
        0
    }
}

/// The character of a digit below ten.
pub open spec fn digit_char(d: nat) -> char {
    (d + 48) as char
}

/// A number in decimal with at least `width` digits, zeros in front where it
/// has fewer.
pub open spec fn padded(n: nat, width: nat) -> Seq<char>
    decreases n, width,
{
    if n < 10 && width <= 1 {
        seq![digit_char(n)]
    } else if width == 0 {
        padded(n / 10, 0).push(digit_char(n % 10))
    } else {
        padded(n / 10, (width - 1) as nat).push(digit_char(n % 10))
    }
}

/// Every character of the text is a decimal digit.
pub open spec fn all_digits(text: Seq<char>) -> bool {
    forall|i: int| 0 <= i < text.len() ==> is_digit(#[trigger] text[i])
}

/// The number that a run of digits denotes in base ten; the empty run
/// denotes zero.
pub open spec fn decimal_value(digits: Seq<char>) -> nat
    decreases digits.len(),
{
    if digits.len() == 0 {
        0
    } else {
        10 * decimal_value(digits.drop_last()) + digit_value(digits.last())
    }
}

/// The magnitude written by a text: at least one digit and nothing else.
pub open spec fn magnitude(text: Seq<char>) -> Option<nat> {
    if text.len() > 0 && all_digits(text) {
        Some(decimal_value(text))
    } else {
        None
    }
}

/// The value of an unsigned integer literal: an optional `+`, then digits.
/// `None` where the text is not of that form or the value exceeds `u64::MAX`.
pub open spec fn unsigned_literal(text: Seq<char>) -> Option<int> {
    let digits = if text.len() > 0 && text[0] == '+' {
        text.skip(1)
    } else {
        text
    };
    match magnitude(digits) {
        Some(v) => if v <= u64::MAX { Some(v as int) } else { None },
        None => None,
    }
}

/// The value of a signed integer literal: an optional `+` or `-`, then digits.
/// `None` where the text is not of that form or the value lies outside `i64`.
pub open spec fn signed_literal(text: Seq<char>) -> Option<int> {
    if text.len() > 0 && text[0] == '-' {
        match magnitude(text.skip(1)) {
            Some(v) => if -v >= i64::MIN { Some(-v) } else { None },
            None => None,
        }
    } else {
        let digits = if text.len() > 0 && text[0] == '+' {
            text.skip(1)
        } else {
            text
        };
        match magnitude(digits) {
            Some(v) => if v <= i64::MAX { Some(v as int) } else { None },
            None => None,
        }
    }
}

/// Reading more digits never gives a smaller number.
pub proof fn lemma_decimal_value_grows(digits: Seq<char>, k: int)
    requires
        0 <= k <= digits.len(),
    ensures
        decimal_value(digits.take(k)) <= decimal_value(digits),
    decreases digits.len() - k,
{
    if k == digits.len() {
        assert(digits.take(k) =~= digits);
    } else {
        lemma_decimal_value_grows(digits.drop_last(), k);
        assert(digits.drop_last().take(k) =~= digits.take(k));
    }
}

/// A number written out with `padded` is a run of at least `width` digits,
/// and at least one, that denotes the number again.
pub proof fn lemma_padded_reads_back(n: nat, width: nat)
    ensures
        padded(n, width).len() >= 1,
        padded(n, width).len() >= width,
        all_digits(padded(n, width)),
        decimal_value(padded(n, width)) == n,
    decreases n, width,
{
    let text = padded(n, width);
    if n < 10 && width <= 1 {
        assert(text.drop_last() =~= Seq::<char>::empty());
        assert(is_digit(text[0]));
        assert(text.last() == digit_char(n));
        assert(digit_value(digit_char(n)) == n);
        assert(decimal_value(text.drop_last()) == 0);
    } else {
        let rest: nat = if width == 0 {
            0
        } else {
            (width - 1) as nat
        };
        let head = padded(n / 10, rest);
        lemma_padded_reads_back(n / 10, rest);
        assert(text == head.push(digit_char(n % 10)));
        assert(text.drop_last() =~= head);
        assert(text.last() == digit_char(n % 10));
        assert(is_digit(text.last()));
        assert(digit_value(digit_char(n % 10)) == n % 10);
        assert forall|i: int| 0 <= i < text.len() implies is_digit(#[trigger] text[i]) by {
            if i < head.len() {
                assert(text[i] == head[i]);
            }
        }
    }
}

/// Every number up to `u64::MAX`, written in decimal without a sign, is an
/// unsigned integer literal of that value.
pub proof fn lemma_unsigned_literal_of_decimal(n: nat)
    requires
        n <= u64::MAX,
    ensures
        unsigned_literal(padded(n, 1)) == Some(n as int),
{
    lemma_padded_reads_back(n, 1);
    assert(is_digit(padded(n, 1)[0]));
}

/// Reads the characters of `text` from position `from` up to `to` as a run
/// of digits whose value is at most `limit`.
pub fn read_magnitude(text: &str, from: usize, to: usize, limit: u64) -> (value: Option<u64>)
    requires
        from <= to <= text@.len(),
    ensures
        value == match magnitude(text@.subrange(from as int, to as int)) {
            Some(v) => if v <= limit { Some(v as u64) } else { None },
            None => None,
        },
{
    let ghost run = text@.subrange(from as int, to as int);
    if from == to {
        return None;
    }
    let mut acc: u64 = 0;
    let mut i: usize = from;
    while i < to
        invariant
            from <= i <= to <= text@.len(),
            run == text@.subrange(from as int, to as int),
            all_digits(run.take(i - from)),
            acc == decimal_value(run.take(i - from)),
            acc <= limit,
        decreases to - i,
    {
        let c = text.get_char(i);
        let ghost seen = run.take(i - from);
        let ghost next = run.take(i + 1 - from);
        proof {
            assert(run[i - from] == c);
            assert(next.drop_last() =~= seen);
            assert(next.last() == c);
        }
        if !('0' <= c && c <= '9') {
            proof {
                assert(!is_digit(run[i - from]));
            }
            return None;
        }
        let d: u64 = (c as u32 - 48) as u64;
        proof {
            assert(d == digit_value(c));
            assert(all_digits(next)) by {
                assert forall|j: int| 0 <= j < next.len() implies is_digit(#[trigger] next[j]) by {
                    if j < seen.len() {
                        assert(next[j] == seen[j]);
                    }
                }
            }
            assert(decimal_value(next) == 10 * acc + d);
        }
        if d > limit || acc > (limit - d) / 10 {
            proof {
                // The value read so far already exceeds the limit.
                assert(10 * acc + d > limit);
                lemma_decimal_value_grows(run, i + 1 - from);
            }
            return None;
        }
        acc = 10 * acc + d;
        i += 1;
    }
    proof {
        assert(run.take(to - from) =~= run);
    }
    Some(acc)
}

/// Reads a whole token as an unsigned integer literal.
pub fn parse_unsigned(text: &str) -> (value: Option<u64>)
    ensures
        value == match unsigned_literal(text@) {
            Some(v) => Some(v as u64),
            None => None,
        },
{
    let len = text.unicode_len();
    let from: usize = if len > 0 && text.get_char(0) == '+' {
        1
    } else {
        0
    };
    proof {
        assert(text@ =~= text@.subrange(0, len as int));
        if len > 0 {
            assert(text@.skip(1) =~= text@.subrange(1, len as int));
        }
    }
    read_magnitude(text, from, len, u64::MAX)
}

/// Reads the first `to` characters of a token as a signed integer literal.
pub fn parse_signed_prefix(text: &str, to: usize) -> (value: Option<i64>)
    requires
        to <= text@.len(),
    ensures
        value == match signed_literal(text@.take(to as int)) {
            Some(v) => Some(v as i64),
            None => None,
        },
{
    let ghost head = text@.take(to as int);
    proof {
        assert(head =~= text@.subrange(0, to as int));
        if to > 0 {
            assert(head.skip(1) =~= text@.subrange(1, to as int));
        }
    }
    if to > 0 && text.get_char(0) == '-' {
        match read_magnitude(text, 1, to, 9_223_372_036_854_775_808u64) {
            Some(m) => {
                if m == 9_223_372_036_854_775_808u64 {
                    Some(i64::MIN)
                } else {
                    Some(-(m as i64))
                }
            },
            None => None,
        }
    } else {
        let from: usize = if to > 0 && text.get_char(0) == '+' {
            1
        } else {
            0
        };
        match read_magnitude(text, from, to, 9_223_372_036_854_775_807u64) {
            Some(m) => Some(m as i64),
            None => None,
        }
    }
}

} // verus!
