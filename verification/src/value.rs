//! Rendered values: fixed-width numbers, quoted alphanumeric strings and
//! calendar dates, each drawn at random and each with an exact description
//! of the texts it can produce.

use crate::decimal::{decimal_digits, decimal_text, is_digit, lemma_decimal_text_digits,
    lemma_decimal_text_len, lemma_pow10_positive, pow10, pow10_u64, push_decimal};
use crate::random::{random_alphanumeric, random_in_range};
use crate::text::push_chars;
use vstd::prelude::*;

verus! {

/// Why a number of the requested shape cannot be generated.
#[derive(Debug, Clone, Copy, PartialEq, Eq, Structural)]
pub enum NumberGeneratorError {
    /// The digit count is outside of 1 to 19.
    SizeTooLarge { size: u8 },
    /// More fractional digits were asked for than there are digits.
    ExponentTooLarge { size: u8, exponent: u8 },
}

/// The reason for which a number of `size` digits, `exponent` of them
/// fractional, is refused, if it is. The digit count is judged first.
pub open spec fn number_failure(size: u8, exponent: u8) -> Option<NumberGeneratorError> {
    if size < 1 || size >= 20 {
        Some(NumberGeneratorError::SizeTooLarge { size })
    } else if exponent > size {
        Some(NumberGeneratorError::ExponentTooLarge { size, exponent })
    } else {
        None
    }
}

/// The decimal notation of `n` with a point placed `exponent` characters
/// from the right end; without a point where `exponent` is zero.
pub open spec fn number_text(n: nat, exponent: nat) -> Seq<char> {
    let digits = decimal_text(n);
    if exponent == 0 {
        digits
    } else {
        digits.insert(digits.len() - exponent, '.')
    }
}

/// The texts that stand for a number of exactly `size` digits, `exponent`
/// of them fractional: the notation of some number with that many digits.
pub open spec fn is_number_text(text: Seq<char>, size: u8, exponent: u8) -> bool {
    &&& number_failure(size, exponent) is None
    &&& exists|n: nat|
        pow10((size - 1) as nat) <= n < pow10(size as nat) && text == #[trigger] number_text(
            n,
            exponent as nat,
        )
}

/// What can be read off a text that stands for a number of `size` digits:
/// it holds `size` digits and nothing else but the point, which is there
/// exactly when there are fractional digits and then stands `exponent`
/// characters from the end; the first digit is not a zero.
pub open spec fn has_number_shape(text: Seq<char>, size: u8, exponent: u8) -> bool {
    let point = size - exponent;
    if exponent == 0 {
        &&& text.len() == size
        &&& forall|i: int| 0 <= i < text.len() ==> is_digit(#[trigger] text[i])
        &&& text[0] != '0'
    } else {
        &&& text.len() == size + 1
        &&& text[point] == '.'
        &&& text.len() - 1 - point == exponent
        &&& forall|i: int| 0 <= i < text.len() && i != point ==> is_digit(#[trigger] text[i])
        &&& text.remove(point)[0] != '0'
    }
}

/// Every text that stands for a number of `size` digits has the shape that
/// `has_number_shape` describes.
pub proof fn lemma_number_text_shape(text: Seq<char>, size: u8, exponent: u8)
    requires
        is_number_text(text, size, exponent),
    ensures
        has_number_shape(text, size, exponent),
{
    let n = choose|n: nat|
        pow10((size - 1) as nat) <= n < pow10(size as nat) && text == #[trigger] number_text(
            n,
            exponent as nat,
        );
    let digits = decimal_text(n);
    lemma_decimal_text_len(n, size as nat);
    lemma_decimal_text_digits(n);
    lemma_pow10_positive((size - 1) as nat);
    if exponent > 0 {
        let point = size - exponent;
        assert(text == digits.insert(point, '.'));
        assert(text.remove(point) =~= digits);
        assert forall|i: int| 0 <= i < text.len() && i != point implies is_digit(
            #[trigger] text[i],
        ) by {
            if i < point {
                assert(text[i] == digits[i]);
            } else {
                assert(text[i] == digits[i - 1]);
            }
        }
    }
}

/// The text of `number` with a point `exponent` characters from the right
/// end, or without one where `exponent` is zero.
pub fn number_string(number: u64, exponent: u8) -> (text: String)
    requires
        exponent <= decimal_text(number as nat).len(),
    ensures
        text@ == number_text(number as nat, exponent as nat),
{
    let digits = decimal_digits(number);
    let point: usize = digits.len() - exponent as usize;
    let mut text = String::new();
    let mut i: usize = 0;
    while i < digits.len()
        invariant
            i <= digits.len(),
            point + exponent == digits.len(),
            text@ == if exponent > 0 && i > point {
                digits@.subrange(0, i as int).insert(point as int, '.')
            } else {
                digits@.subrange(0, i as int)
            },
        decreases digits.len() - i,
    {
        if exponent > 0 && i == point {
            text.push('.');
        }
        text.push(digits[i]);
        i += 1;
        assert(text@ =~= if exponent > 0 && i > point {
            digits@.subrange(0, i as int).insert(point as int, '.')
        } else {
            digits@.subrange(0, i as int)
        });
    }
    assert(digits@.subrange(0, digits.len() as int) == digits@);
    text
}

/// A random number of exactly `size` decimal digits, the first of them not
/// zero, with a point before the last `exponent` digits where `exponent` is
/// not zero. The request is refused, before anything is drawn, where `size`
/// is not between 1 and 19 and else where `exponent` exceeds `size`.
pub fn rand_number_of_len(size: u8, exponent: u8) -> (result: Result<
    String,
    NumberGeneratorError,
>)
    ensures
        result is Ok <==> number_failure(size, exponent) is None,
        match result {
            Ok(text) => is_number_text(text@, size, exponent) && has_number_shape(
                text@,
                size,
                exponent,
            ),
            Err(error) => number_failure(size, exponent) == Some(error),
        },
{
    if size >= 20 || size < 1 {
        return Err(NumberGeneratorError::SizeTooLarge { size });
    }
    if exponent > size {
        return Err(NumberGeneratorError::ExponentTooLarge { size, exponent });
    }
    let low: u64 = pow10_u64(size - 1);
    let high: u64 = pow10_u64(size);
    assert(low < high) by {
        lemma_pow10_positive((size - 1) as nat);
    }
    let number: u64 = random_in_range(low, high);
    proof {
        lemma_decimal_text_len(number as nat, size as nat);
    }
    let text = number_string(number, exponent);
    proof {
        assert(is_number_text(text@, size, exponent));
        lemma_number_text_shape(text@, size, exponent);
    }
    Ok(text)
}

/// Whether a character is an ASCII letter or digit.
pub open spec fn is_alphanumeric(c: char) -> bool {
    ||| 'A' <= c <= 'Z'
    ||| 'a' <= c <= 'z'
    ||| '0' <= c <= '9'
}

/// A text between two double quotes.
pub open spec fn quoted_text(body: Seq<char>) -> Seq<char> {
    seq!['"'] + body + seq!['"']
}

/// The texts that a quoted alphanumeric string of `size` characters can be:
/// a double quote, `size` ASCII letters or digits, a double quote.
pub open spec fn is_quoted_text(text: Seq<char>, size: nat) -> bool {
    &&& text.len() == size + 2
    &&& text[0] == '"'
    &&& text[size as int + 1] == '"'
    &&& forall|i: int| 1 <= i <= size ==> is_alphanumeric(#[trigger] text[i])
}

/// The given characters between two double quotes.
pub fn quoted_string(body: &Vec<char>) -> (text: String)
    ensures
        text@ == quoted_text(body@),
{
    let mut text = String::new();
    text.push('"');
    push_chars(&mut text, body);
    text.push('"');
    text
}

/// A random string of `size` ASCII letters and digits between two double
/// quotes.
pub fn rand_string_of_len(size: u8) -> (text: String)
    ensures
        is_quoted_text(text@, size as nat),
{
    let mut body: Vec<char> = Vec::new();
    while body.len() < size as usize
        invariant
            body.len() <= size,
            forall|i: int| 0 <= i < body.len() ==> is_alphanumeric(#[trigger] body@[i]),
        decreases size - body.len(),
    {
        let byte: u8 = random_alphanumeric();
        body.push(byte as char);
    }
    quoted_string(&body)
}

/// The notation of a date: year, month and day in decimal, none of them
/// padded, with a hyphen between them.
pub open spec fn date_text(year: nat, month: nat, day: nat) -> Seq<char> {
    decimal_text(year) + seq!['-'] + decimal_text(month) + seq!['-'] + decimal_text(day)
}

/// The texts that a generated date can be: the notation of a day from the
/// 1st to the 28th of any month of a year from 1900 to 9999.
pub open spec fn is_date_text(text: Seq<char>) -> bool {
    exists|year: nat, month: nat, day: nat|
        1900 <= year <= 9999 && 1 <= month <= 12 && 1 <= day <= 28 && text == #[trigger] date_text(
            year,
            month,
            day,
        )
}

/// What can be read off a generated date: four digits, a hyphen, one or two
/// digits, a hyphen, one or two digits; eight to ten characters in all.
pub open spec fn has_date_shape(text: Seq<char>) -> bool {
    exists|month_len: int, day_len: int|
        {
            &&& 1 <= month_len <= 2
            &&& 1 <= day_len <= 2
            &&& #[trigger] date_shape_with(text, month_len, day_len)
        }
}

/// The shape of a date whose month takes `month_len` characters and whose
/// day takes `day_len`.
pub open spec fn date_shape_with(text: Seq<char>, month_len: int, day_len: int) -> bool {
    &&& text.len() == 6 + month_len + day_len
    &&& text[4] == '-'
    &&& text[5 + month_len] == '-'
    &&& forall|i: int|
        0 <= i < text.len() && i != 4 && i != 5 + month_len ==> is_digit(#[trigger] text[i])
}

/// Every generated date has the shape that `has_date_shape` describes.
pub proof fn lemma_date_text_shape(text: Seq<char>)
    requires
        is_date_text(text),
    ensures
        has_date_shape(text),
        8 <= text.len() <= 10,
{
    let (year, month, day) = choose|year: nat, month: nat, day: nat|
        1900 <= year <= 9999 && 1 <= month <= 12 && 1 <= day <= 28 && text == #[trigger] date_text(
            year,
            month,
            day,
        );
    let y = decimal_text(year);
    let m = decimal_text(month);
    let d = decimal_text(day);
    assert(pow10(3) == 1000 && pow10(4) == 10000 && pow10(2) == 100 && pow10(1) == 10 && pow10(0)
        == 1) by {
        reveal_with_fuel(pow10, 5);
    }
    lemma_decimal_text_len(year, 4);
    lemma_decimal_text_len(month, if month < 10 { 1 } else { 2 });
    lemma_decimal_text_len(day, if day < 10 { 1 } else { 2 });
    lemma_decimal_text_digits(year);
    lemma_decimal_text_digits(month);
    lemma_decimal_text_digits(day);
    let month_len = m.len() as int;
    let day_len = d.len() as int;
    assert(text == y + seq!['-'] + m + seq!['-'] + d);
    assert forall|i: int|
        0 <= i < text.len() && i != 4 && i != 5 + month_len implies is_digit(
        #[trigger] text[i],
    ) by {
        if i < 4 {
            assert(text[i] == y[i]);
        } else if i < 5 + month_len {
            assert(text[i] == m[i - 5]);
        } else {
            assert(text[i] == d[i - 6 - month_len]);
        }
    }
    assert(date_shape_with(text, month_len, day_len));
}

/// The notation of the given date.
pub fn date_string(year: u16, month: u8, day: u8) -> (text: String)
    ensures
        text@ == date_text(year as nat, month as nat, day as nat),
{
    let mut chars: Vec<char> = Vec::new();
    push_decimal(&mut chars, year as u64);
    chars.push('-');
    push_decimal(&mut chars, month as u64);
    chars.push('-');
    push_decimal(&mut chars, day as u64);
    let mut text = String::new();
    push_chars(&mut text, &chars);
    assert(text@ =~= date_text(year as nat, month as nat, day as nat));
    text
}

/// A random date between the years 1900 and 9999, the day never past the
/// 28th, so that every month has it.
pub fn rand_date() -> (text: String)
    ensures
        is_date_text(text@),
        has_date_shape(text@),
        8 <= text@.len() <= 10,
{
    let year: u64 = random_in_range(1900, 10000);
    let month: u64 = random_in_range(1, 13);
    let day: u64 = random_in_range(1, 29);
    let text = date_string(year as u16, month as u8, day as u8);
    proof {
        assert(is_date_text(text@));
        lemma_date_text_shape(text@);
    }
    text
}

} // verus!
