//! Reading a countdown duration from text.
//!
//! Two forms are read: `M:SS`, minutes and seconds around a single colon,
//! and `SS`, a plain count of seconds. A number is written as Rust writes an
//! unsigned integer: decimal digits, at least one, with an optional `+` in
//! front. The duration is a `u32` count of seconds, and no other bound is put
//! on it.

use vstd::prelude::*;
use crate::text::chars_of;

verus! {

/// The duration used when none is given: three minutes.
pub const DEFAULT_TIMER_SECONDS: u32 = 180;

/// Why a text is not a duration.
#[derive(Debug, Clone, Copy, PartialEq, Eq, Structural)]
pub enum InvalidFormat {
    /// More than one colon.
    Segments,
    /// The part before the colon is not a number.
    Minutes,
    /// The part after the colon is not a number.
    Seconds,
    /// The part after the colon is a number, but not below 60.
    SecondsRange,
    /// There is no colon, and the text is not a number.
    Value,
    /// Minutes and seconds are fine, but together exceed what a `u32` holds.
    Overflow,
}

impl InvalidFormat {
    /// The text of `message`.
    pub open spec fn message_text(self) -> Seq<char> {
        match self {
            InvalidFormat::Segments => "Invalid time format. Use 'M:SS' or 'SS'"@,
            InvalidFormat::Minutes => "Invalid minutes value"@,
            InvalidFormat::Seconds => "Invalid seconds value"@,
            InvalidFormat::SecondsRange => "Seconds must be less than 60"@,
            InvalidFormat::Value => "Invalid time value"@,
            InvalidFormat::Overflow => "Time value is too large"@,
        }
    }

    /// What to tell the user.
    pub fn message(&self) -> (text: String)
        ensures
            text@ == self.message_text(),
    {
        match self {
            InvalidFormat::Segments => "Invalid time format. Use 'M:SS' or 'SS'".to_string(),
            InvalidFormat::Minutes => "Invalid minutes value".to_string(),
            InvalidFormat::Seconds => "Invalid seconds value".to_string(),
            InvalidFormat::SecondsRange => "Seconds must be less than 60".to_string(),
            InvalidFormat::Value => "Invalid time value".to_string(),
            InvalidFormat::Overflow => "Time value is too large".to_string(),
        }
    }
}

/// Whether `c` is one of the ten decimal digits.
pub open spec fn is_digit(c: char) -> bool {
    '0' <= c && c <= '9'
}

/// The number that the digit `c` writes.
pub open spec fn digit_value(c: char) -> nat {
    (c as int - '0' as int) as nat
}

/// Whether `s` holds decimal digits only.
pub open spec fn all_digits(s: Seq<char>) -> bool {
    forall|i: int| 0 <= i < s.len() ==> is_digit(#[trigger] s[i])
}

/// The number that a run of decimal digits writes; leading zeros count for
/// nothing.
pub open spec fn decimal_value(digits: Seq<char>) -> nat
    decreases digits.len(),
{
    if digits.len() == 0 {
        0
    } else {
        10 * decimal_value(digits.drop_last()) + digit_value(digits.last())
    }
}

/// `s` without the plus sign that may stand in front of a number.
pub open spec fn unsigned_part(s: Seq<char>) -> Seq<char> {
    if s.len() > 0 && s[0] == '+' {
        s.drop_first()
    } else {
        s
    }
}

/// Whether `s` writes a number that a `u32` holds.
pub open spec fn is_number(s: Seq<char>) -> bool {
    let digits = unsigned_part(s);
    &&& digits.len() > 0
    &&& all_digits(digits)
    &&& decimal_value(digits) <= u32::MAX
}

/// The number that `s` writes, where `is_number(s)`.
pub open spec fn number_value(s: Seq<char>) -> nat {
    decimal_value(unsigned_part(s))
}

/// Where the first colon of `s` stands; the length of `s` if it has none.
pub open spec fn first_colon(s: Seq<char>) -> int
    decreases s.len(),
{
    if s.len() == 0 || s[0] == ':' {
        0
    } else {
        1 + first_colon(s.drop_first())
    }
}

/// What `parse_time` makes of a text.
pub open spec fn parse_spec(s: Seq<char>) -> Result<u32, InvalidFormat> {
    if !s.contains(':') {
        if is_number(s) {
            Ok(number_value(s) as u32)
        } else {
            Err(InvalidFormat::Value)
        }
    } else {
        let minutes = s.take(first_colon(s));
        let seconds = s.skip(first_colon(s) + 1);
        if seconds.contains(':') {
            Err(InvalidFormat::Segments)
        } else if !is_number(minutes) {
            Err(InvalidFormat::Minutes)
        } else if !is_number(seconds) {
            Err(InvalidFormat::Seconds)
        } else if number_value(seconds) >= 60 {
            Err(InvalidFormat::SecondsRange)
        } else if number_value(minutes) * 60 + number_value(seconds) > u32::MAX {
            Err(InvalidFormat::Overflow)
        } else {
            Ok((number_value(minutes) * 60 + number_value(seconds)) as u32)
        }
    }
}

/// The first colon is a colon, nothing before it is one, and a text without
/// a colon has it at its end.
pub proof fn lemma_first_colon(s: Seq<char>)
    ensures
        0 <= first_colon(s) <= s.len(),
        first_colon(s) < s.len() ==> s[first_colon(s)] == ':',
        forall|k: int| 0 <= k < first_colon(s) ==> s[k] != ':',
        first_colon(s) == s.len() <==> !s.contains(':'),
    decreases s.len(),
{
    if s.len() > 0 && s[0] != ':' {
        let rest = s.drop_first();
        lemma_first_colon(rest);
        assert forall|k: int| 0 <= k < first_colon(s) implies s[k] != ':' by {
            if k > 0 {
                assert(s[k] == rest[k - 1]);
            }
        }
    }
}

/// A text put together from a part without a colon, a colon and a rest is
/// taken apart at that colon into the same two parts.
pub proof fn lemma_split_at_first_colon(before: Seq<char>, after: Seq<char>)
    requires
        !before.contains(':'),
    ensures
        (before + seq![':'] + after).contains(':'),
        first_colon(before + seq![':'] + after) == before.len(),
        (before + seq![':'] + after).take(before.len() as int) == before,
        (before + seq![':'] + after).skip(before.len() as int + 1) == after,
{
    let s = before + seq![':'] + after;
    lemma_first_colon(s);
    assert(s[before.len() as int] == ':');
}

/// A longer run of digits writes no smaller a number than its beginning.
pub proof fn lemma_decimal_value_grows(digits: Seq<char>, n: int)
    requires
        0 <= n <= digits.len(),
    ensures
        decimal_value(digits.take(n)) <= decimal_value(digits),
    decreases digits.len(),
{
    if n == digits.len() {
        assert(digits.take(n) =~= digits);
    } else {
        lemma_decimal_value_grows(digits.drop_last(), n);
        assert(digits.drop_last().take(n) =~= digits.take(n));
    }
}

/// A number holds no colon.
pub proof fn lemma_number_has_no_colon(s: Seq<char>)
    requires
        is_number(s),
    ensures
        !s.contains(':'),
{
    let digits = unsigned_part(s);
    assert forall|i: int| 0 <= i < s.len() implies s[i] != ':' by {
        if s[0] == '+' && i > 0 {
            assert(is_digit(digits[i - 1]));
        }
    }
}

/// A text without a colon is read as a count of seconds: a number is the
/// duration it writes, and anything else is refused.
pub proof fn lemma_parse_seconds(s: Seq<char>)
    requires
        !s.contains(':'),
    ensures
        is_number(s) ==> parse_spec(s) == Ok::<u32, InvalidFormat>(number_value(s) as u32),
        !is_number(s) ==> parse_spec(s) == Err::<u32, InvalidFormat>(InvalidFormat::Value),
{
}

/// A run of digits that writes a number within `u32` is read as that number
/// of seconds.
pub proof fn lemma_parse_digits(digits: Seq<char>)
    requires
        digits.len() > 0,
        all_digits(digits),
        decimal_value(digits) <= u32::MAX,
    ensures
        parse_spec(digits) == Ok::<u32, InvalidFormat>(decimal_value(digits) as u32),
{
}

/// Two numbers around a colon are read as minutes and seconds: with seconds
/// below 60 the duration is sixty times the minutes plus the seconds, as long
/// as a `u32` holds it, and with seconds of 60 or more the text is refused.
pub proof fn lemma_parse_minutes_seconds(minutes: Seq<char>, seconds: Seq<char>)
    requires
        is_number(minutes),
        is_number(seconds),
    ensures
        parse_spec(minutes + seq![':'] + seconds) == if number_value(seconds) >= 60 {
            Err::<u32, InvalidFormat>(InvalidFormat::SecondsRange)
        } else if number_value(minutes) * 60 + number_value(seconds) > u32::MAX {
            Err(InvalidFormat::Overflow)
        } else {
            Ok((number_value(minutes) * 60 + number_value(seconds)) as u32)
        },
{
    lemma_number_has_no_colon(minutes);
    lemma_number_has_no_colon(seconds);
    lemma_split_at_first_colon(minutes, seconds);
}

/// A text with a single colon in which either side is not a number is
/// refused, and the error says which side: the minutes where they are at
/// fault, else the seconds.
pub proof fn lemma_parse_rejects_non_numbers(minutes: Seq<char>, seconds: Seq<char>)
    requires
        !minutes.contains(':'),
        !seconds.contains(':'),
        !is_number(minutes) || !is_number(seconds),
    ensures
        parse_spec(minutes + seq![':'] + seconds) == if !is_number(minutes) {
            Err::<u32, InvalidFormat>(InvalidFormat::Minutes)
        } else {
            Err(InvalidFormat::Seconds)
        },
{
    lemma_split_at_first_colon(minutes, seconds);
}

/// A text with more than one colon is refused.
pub proof fn lemma_parse_rejects_second_colon(before: Seq<char>, after: Seq<char>)
    requires
        !before.contains(':'),
        after.contains(':'),
    ensures
        parse_spec(before + seq![':'] + after) == Err::<u32, InvalidFormat>(
            InvalidFormat::Segments,
        ),
{
    lemma_split_at_first_colon(before, after);
}

/// Reads the number written by `chars[from..to]`, if it is one.
#[verifier::loop_isolation(false)]
fn parse_number(chars: &Vec<char>, from: usize, to: usize) -> (number: Option<u32>)
    requires
        from <= to <= chars.len(),
    ensures
        number is Some <==> is_number(chars@.subrange(from as int, to as int)),
        number is Some ==> number.unwrap() == number_value(chars@.subrange(from as int, to as int)),
{
    let ghost s = chars@.subrange(from as int, to as int);
    let mut i: usize = from;
    if i < to && chars[i] == '+' {
        i += 1;
    }
    let start: usize = i;
    let ghost digits = chars@.subrange(start as int, to as int);
    assert(digits =~= unsigned_part(s));
    if i == to {
        return None;
    }
    let mut value: u32 = 0;
    while i < to
        invariant
            start <= i <= to <= chars.len(),
            digits == chars@.subrange(start as int, to as int),
            all_digits(digits.take(i - start)),
            value == decimal_value(digits.take(i - start)),
        decreases to - i,
    {
        let c: char = chars[i];
        assert(c == digits[i - start]);
        if c < '0' || c > '9' {
            return None;
        }
        let next: u64 = value as u64 * 10 + (c as u64 - '0' as u64);
        assert(digits.take(i + 1 - start).drop_last() =~= digits.take(i - start));
        if next > u32::MAX as u64 {
            proof {
                lemma_decimal_value_grows(digits, i + 1 - start);
            }
            return None;
        }
        value = next as u32;
        i += 1;
    }
    assert(digits.take(i - start) =~= digits);
    Some(value)
}

/// Reads a duration, in seconds, from `M:SS` or `SS`.
#[verifier::loop_isolation(false)]
pub fn parse_time(time_str: &str) -> (result: Result<u32, InvalidFormat>)
    ensures
        result == parse_spec(time_str@),
{
    let chars = chars_of(time_str);
    let n: usize = chars.len();
    let mut colon: usize = 0;
    while colon < n && chars[colon] != ':'
        invariant
            colon <= n == chars.len(),
            forall|k: int| 0 <= k < colon ==> chars@[k] != ':',
        decreases n - colon,
    {
        colon += 1;
    }
    proof {
        lemma_first_colon(chars@);
    }
    if colon == n {
        assert(chars@.subrange(0, n as int) =~= chars@);
        return match parse_number(&chars, 0, n) {
            Some(seconds) => Ok(seconds),
            None => Err(InvalidFormat::Value),
        };
    }
    let ghost rest = chars@.skip(colon + 1);
    let mut k: usize = colon + 1;
    while k < n
        invariant
            colon < k <= n == chars.len(),
            rest == chars@.skip(colon + 1),
            forall|j: int| 0 <= j < k - colon - 1 ==> rest[j] != ':',
        decreases n - k,
    {
        if chars[k] == ':' {
            assert(rest[k - colon - 1] == ':');
            return Err(InvalidFormat::Segments);
        }
        k += 1;
    }
    let minutes: u32 = match parse_number(&chars, 0, colon) {
        Some(minutes) => minutes,
        None => {
            return Err(InvalidFormat::Minutes);
        },
    };
    let seconds: u32 = match parse_number(&chars, colon + 1, n) {
        Some(seconds) => seconds,
        None => {
            return Err(InvalidFormat::Seconds);
        },
    };
    if seconds >= 60 {
        return Err(InvalidFormat::SecondsRange);
    }
    let total: u64 = minutes as u64 * 60 + seconds as u64;
    if total > u32::MAX as u64 {
        return Err(InvalidFormat::Overflow);
    }
    Ok(total as u32)
}

/// The duration to count down from: the default where no text is given, else
/// what the text says. A text that is given and is no duration is an error,
/// never a reason to fall back on the default.
pub fn duration_from_arg(arg: Option<&str>) -> (result: Result<u32, InvalidFormat>)
    ensures
        result == match arg {
            Some(text) => parse_spec(text@),
            None => Ok(DEFAULT_TIMER_SECONDS),
        },
{
    match arg {
        Some(text) => parse_time(text),
        None => Ok(DEFAULT_TIMER_SECONDS),
    }
}

} // verus!
