//! Decimal text for fixed-point numbers.
//!
//! A load or a size is held as a count of millionths. Its text has the
//! whole part, a point and two decimal places; the value is rounded to the
//! nearest hundredth, and a value exactly half way between two hundredths
//! goes to the even one.

use vstd::prelude::*;

verus! {

/// How many millionths make one hundredth.
pub const MILLIONTHS_PER_HUNDREDTH: u64 = 10_000;

/// The character that stands for a digit; `'0'` for anything that is none.
pub open spec fn digit_char(digit: int) -> char {
    if digit == 1 {
        '1'
    } else if digit == 2 {
        '2'
    } else if digit == 3 {
        '3'
    } else if digit == 4 {
        '4'
    } else if digit == 5 {
        '5'
    } else if digit == 6 {
        '6'
    } else if digit == 7 {
        '7'
    } else if digit == 8 {
        '8'
    } else if digit == 9 {
        '9'
    } else {
        '0'
    }
}

/// The decimal digits of `number`, most significant first, without leading
/// zeros; the number zero is the single digit `0`.
pub open spec fn decimal_digits(number: nat) -> Seq<char>
    decreases number,
{
    if number < 10 {
        seq![digit_char(number as int)]
    } else {
        decimal_digits(number / 10).push(digit_char((number % 10) as int))
    }
}

/// The number of hundredths nearest to `millionths`; a tie goes to the even
/// neighbour.
pub open spec fn rounded_hundredths(millionths: nat) -> nat {
    let below = millionths / (MILLIONTHS_PER_HUNDREDTH as nat);
    let rest = millionths % (MILLIONTHS_PER_HUNDREDTH as nat);
    if 2 * rest > MILLIONTHS_PER_HUNDREDTH || (2 * rest == MILLIONTHS_PER_HUNDREDTH && below % 2
        == 1) {
        below + 1
    } else {
        below
    }
}

/// The text of a count of hundredths: the whole part, a point, two places.
pub open spec fn hundredths_text(hundredths: nat) -> Seq<char> {
    decimal_digits(hundredths / 100).push('.').push(
        digit_char((hundredths / 10 % 10) as int),
    ).push(digit_char((hundredths % 10) as int))
}

/// The text of a count of millionths, to two decimal places.
pub open spec fn fixed_text(millionths: u64) -> Seq<char> {
    hundredths_text(rounded_hundredths(millionths as nat))
}

/// Whether a character is one of the ten digits.
pub open spec fn is_digit(c: char) -> bool {
    exists|digit: int| 0 <= digit <= 9 && c == #[trigger] digit_char(digit)
}

/// The digits of a number are digits, and there is at least one.
pub proof fn lemma_decimal_digits_are_digits(number: nat)
    ensures
        decimal_digits(number).len() >= 1,
        forall|i: int|
            0 <= i < decimal_digits(number).len() ==> is_digit(#[trigger] decimal_digits(number)[i]),
    decreases number,
{
    if number >= 10 {
        lemma_decimal_digits_are_digits(number / 10);
    }
}

/// The text of a fixed-point number ends in a point and two digits, and all
/// that stands before the point is digits: it holds no other character, so
/// no field separator.
pub proof fn lemma_fixed_text_shape(millionths: u64)
    ensures
        fixed_text(millionths).len() >= 4,
        fixed_text(millionths)[fixed_text(millionths).len() - 3] == '.',
        forall|i: int|
            0 <= i < fixed_text(millionths).len() && i != fixed_text(millionths).len() - 3
                ==> is_digit(#[trigger] fixed_text(millionths)[i]),
        forall|i: int|
            0 <= i < fixed_text(millionths).len() ==> #[trigger] fixed_text(millionths)[i] != ','
                && fixed_text(millionths)[i] != '\n',
{
    lemma_decimal_digits_are_digits(rounded_hundredths(millionths as nat) / 100);
}

/// The character for a digit.
fn digit_to_char(digit: u64) -> (c: char)
    requires
        digit <= 9,
    ensures
        c == digit_char(digit as int),
{
    if digit == 0 {
        '0'
    } else if digit == 1 {
        '1'
    } else if digit == 2 {
        '2'
    } else if digit == 3 {
        '3'
    } else if digit == 4 {
        '4'
    } else if digit == 5 {
        '5'
    } else if digit == 6 {
        '6'
    } else if digit == 7 {
        '7'
    } else if digit == 8 {
        '8'
    } else {
        '9'
    }
}

/// Writes the decimal digits of `number` at the end of `text`.
pub fn push_decimal(text: &mut String, number: u64)
    ensures
        final(text)@ == old(text)@ + decimal_digits(number as nat),
    decreases number,
{
    if number >= 10 {
        push_decimal(text, number / 10);
    }
    text.push(digit_to_char(number % 10));
}

/// Rounds a count of millionths to hundredths, ties to even.
pub fn round_to_hundredths(millionths: u64) -> (hundredths: u64)
    ensures
        hundredths == rounded_hundredths(millionths as nat),
{
    let below = millionths / MILLIONTHS_PER_HUNDREDTH;
    let rest = millionths % MILLIONTHS_PER_HUNDREDTH;
    let half = MILLIONTHS_PER_HUNDREDTH / 2;
    if rest > half || (rest == half && below % 2 == 1) {
        below + 1
    } else {
        below
    }
}

/// Writes a count of millionths at the end of `text`, to two decimal places.
pub fn push_fixed(text: &mut String, millionths: u64)
    ensures
        final(text)@ == old(text)@ + fixed_text(millionths),
{
    let hundredths = round_to_hundredths(millionths);
    push_decimal(text, hundredths / 100);
    text.push('.');
    text.push(digit_to_char(hundredths / 10 % 10));
    text.push(digit_to_char(hundredths % 10));
}

/// The text of a count of millionths, to two decimal places: `12_500_000`
/// gives `12.50`.
pub fn format_fixed(millionths: u64) -> (text: String)
    ensures
        text@ == fixed_text(millionths),
{
    let mut text = String::new();
    push_fixed(&mut text, millionths);
    text
}

} // verus!
