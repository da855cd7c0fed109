//! The clock reading of a countdown: minutes and seconds around a colon,
//! each with at least two digits.

use vstd::prelude::*;
use crate::duration::{
    all_digits, decimal_value, is_digit, is_number, lemma_parse_minutes_seconds, number_value,
    parse_spec, unsigned_part, InvalidFormat,
};

verus! {

/// The character that writes the digit `d`.
pub open spec fn digit_char(d: nat) -> char
    recommends
        d < 10,
{
    ('0' as nat + d) as char
}

/// `n` in decimal, without leading zeros.
pub open spec fn decimal_text(n: nat) -> Seq<char>
    decreases n,
{
    if n < 10 {
        seq![digit_char(n)]
    } else {
        decimal_text(n / 10).push(digit_char(n % 10))
    }
}

/// `n` in decimal, with a zero in front where it has a single digit.
pub open spec fn two_digit_text(n: nat) -> Seq<char> {
    if n < 10 {
        seq!['0'] + decimal_text(n)
    } else {
        decimal_text(n)
    }
}

/// The reading `MM:SS` of a countdown with `seconds` seconds left. Minutes
/// are not capped: from a hundred minutes on they take more than two digits.
pub open spec fn clock_text(seconds: nat) -> Seq<char> {
    two_digit_text(seconds / 60) + seq![':'] + two_digit_text(seconds % 60)
}

fn digit_str(d: u32) -> (text: &'static str)
    requires
        d < 10,
    ensures
        text@ == seq![digit_char(d as nat)],
{
    proof {
        reveal_strlit("0");
        reveal_strlit("1");
        reveal_strlit("2");
        reveal_strlit("3");
        reveal_strlit("4");
        reveal_strlit("5");
        reveal_strlit("6");
        reveal_strlit("7");
        reveal_strlit("8");
        reveal_strlit("9");
    }
    let text = match d {
        0 => "0",
        1 => "1",
        2 => "2",
        3 => "3",
        4 => "4",
        5 => "5",
        6 => "6",
        7 => "7",
        8 => "8",
        _ => "9",
    };
    text
}

fn push_decimal(text: &mut String, n: u32)
    ensures
        final(text)@ == old(text)@ + decimal_text(n as nat),
    decreases n,
{
    if n >= 10 {
        push_decimal(text, n / 10);
    }
    text.append(digit_str(n % 10));
}

fn push_two_digits(text: &mut String, n: u32)
    ensures
        final(text)@ == old(text)@ + two_digit_text(n as nat),
{
    if n < 10 {
        text.append(digit_str(0));
    }
    push_decimal(text, n);
}

/// Writes the clock reading `MM:SS` of a countdown with `remaining_seconds`
/// seconds left.
pub fn format_clock(remaining_seconds: u32) -> (text: String)
    ensures
        text@ == clock_text(remaining_seconds as nat),
{
    let mut text = String::new();
    push_two_digits(&mut text, remaining_seconds / 60);
    proof {
        reveal_strlit(":");
    }
    text.append(":");
    push_two_digits(&mut text, remaining_seconds % 60);
    text
}

/// Decimal notation holds digits only, at least one, and as many as the
/// number needs.
pub proof fn lemma_decimal_text(n: nat)
    ensures
        decimal_text(n).len() >= 1,
        n < 10 <==> decimal_text(n).len() == 1,
        10 <= n < 100 <==> decimal_text(n).len() == 2,
        forall|i: int|
            0 <= i < decimal_text(n).len() ==> '0' <= #[trigger] decimal_text(n)[i] <= '9',
    decreases n,
{
    if n >= 10 {
        lemma_decimal_text(n / 10);
    }
}

/// Decimal notation writes the number it was made from.
pub proof fn lemma_decimal_text_value(n: nat)
    ensures
        all_digits(decimal_text(n)),
        decimal_value(decimal_text(n)) == n,
    decreases n,
{
    if n >= 10 {
        lemma_decimal_text_value(n / 10);
        assert(decimal_text(n).drop_last() =~= decimal_text(n / 10));
    } else {
        assert(decimal_text(n).drop_last() =~= Seq::<char>::empty());
        assert(decimal_value(Seq::<char>::empty()) == 0);
    }
}

/// Two-digit notation is a number, and the one it was made from.
pub proof fn lemma_two_digit_text_value(n: nat)
    ensures
        two_digit_text(n).len() >= 2,
        unsigned_part(two_digit_text(n)) == two_digit_text(n),
        all_digits(two_digit_text(n)),
        decimal_value(two_digit_text(n)) == n,
        n <= u32::MAX ==> is_number(two_digit_text(n)) && number_value(two_digit_text(n)) == n,
{
    lemma_decimal_text(n);
    lemma_decimal_text_value(n);
    if n < 10 {
        reveal_with_fuel(decimal_value, 3);
    }
}

/// The clock reading is written with digits and the colon alone.
pub proof fn lemma_clock_text_chars(seconds: nat)
    ensures
        forall|i: int|
            0 <= i < clock_text(seconds).len() ==> {
                let c = #[trigger] clock_text(seconds)[i];
                ('0' <= c && c <= '9') || c == ':'
            },
{
    let minutes = two_digit_text(seconds / 60);
    lemma_two_digit_text_value(seconds / 60);
    lemma_two_digit_text_value(seconds % 60);
    assert forall|i: int| 0 <= i < clock_text(seconds).len() implies {
        let c = #[trigger] clock_text(seconds)[i];
        ('0' <= c && c <= '9') || c == ':'
    } by {
        assert(i != minutes.len() ==> is_digit(clock_text(seconds)[i]));
    }
}

/// Below a hundred minutes the clock reading is five characters: two digits
/// of minutes, a colon, two digits of seconds. From there on it only grows.
pub proof fn lemma_clock_text_shape(seconds: nat)
    ensures
        clock_text(seconds).len() >= 5,
        seconds < 6000 ==> clock_text(seconds) == seq![
            digit_char(seconds / 60 / 10),
            digit_char(seconds / 60 % 10),
            ':',
            digit_char(seconds % 60 / 10),
            digit_char(seconds % 60 % 10),
        ],
{
    reveal_with_fuel(decimal_text, 2);
    if seconds < 6000 {
        assert(clock_text(seconds) =~= seq![
            digit_char(seconds / 60 / 10),
            digit_char(seconds / 60 % 10),
            ':',
            digit_char(seconds % 60 / 10),
            digit_char(seconds % 60 % 10),
        ]);
    }
}

/// The clock reading of a duration is read back as that duration.
pub proof fn lemma_clock_text_parses_back(seconds: u32)
    ensures
        parse_spec(clock_text(seconds as nat)) == Ok::<u32, InvalidFormat>(seconds),
{
    let minutes = two_digit_text(seconds as nat / 60);
    let rest = two_digit_text(seconds as nat % 60);
    lemma_two_digit_text_value(seconds as nat / 60);
    lemma_two_digit_text_value(seconds as nat % 60);
    lemma_parse_minutes_seconds(minutes, rest);
}

} // verus!
