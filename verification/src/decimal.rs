//! Decimal notation: the digits of a natural number, most significant first,
//! without leading zeros.

use vstd::prelude::*;

verus! {

/// Ten to the power `exponent`.
pub open spec fn pow10(exponent: nat) -> nat
    decreases exponent,
{
    if exponent == 0 {
        1
    } else {
        10 * pow10((exponent - 1) as nat)
    }
}

/// Whether a character is one of `0` to `9`.
pub open spec fn is_digit(c: char) -> bool {
    '0' <= c <= '9'
}

/// The character that stands for a digit value below ten.
pub open spec fn digit_char(digit: nat) -> char {
    (digit + 48) as u8 as char
}

/// The decimal notation of `n`.
pub open spec fn decimal_text(n: nat) -> Seq<char>
    decreases n,
{
    if n < 10 {
        seq![digit_char(n)]
    } else {
        decimal_text(n / 10).push(digit_char(n % 10))
    }
}

/// Powers of ten are positive.
pub proof fn lemma_pow10_positive(exponent: nat)
    ensures
        pow10(exponent) >= 1,
    decreases exponent,
{
    if exponent > 0 {
        lemma_pow10_positive((exponent - 1) as nat);
    }
}

/// A larger exponent gives a power of ten that is at least as large.
pub proof fn lemma_pow10_monotone(low: nat, high: nat)
    requires
        low <= high,
    ensures
        pow10(low) <= pow10(high),
    decreases high,
{
    if low < high {
        lemma_pow10_monotone(low, (high - 1) as nat);
    }
}

/// The largest power of ten below two to the sixty-fourth.
pub proof fn lemma_pow10_19()
    ensures
        pow10(19) == 10_000_000_000_000_000_000,
{
    reveal_with_fuel(pow10, 20);
}

/// Every character of a decimal notation is a digit, and the first one is
/// `0` only for zero itself.
pub proof fn lemma_decimal_text_digits(n: nat)
    ensures
        decimal_text(n).len() >= 1,
        forall|i: int| 0 <= i < decimal_text(n).len() ==> is_digit(#[trigger] decimal_text(n)[i]),
        n > 0 ==> decimal_text(n)[0] != '0',
    decreases n,
{
    if n >= 10 {
        lemma_decimal_text_digits(n / 10);
    }
}

/// A number between two consecutive powers of ten has as many digits as the
/// larger power has zeros.
pub proof fn lemma_decimal_text_len(n: nat, digits: nat)
    requires
        digits >= 1,
        pow10((digits - 1) as nat) <= n < pow10(digits),
    ensures
        decimal_text(n).len() == digits,
    decreases digits,
{
    if digits == 1 {
        assert(pow10(1) == 10) by {
            reveal_with_fuel(pow10, 2);
        }
    } else {
        assert(pow10((digits - 1) as nat) >= 10) by {
            lemma_pow10_positive((digits - 2) as nat);
        }
        lemma_decimal_text_len(n / 10, (digits - 1) as nat);
    }
}

/// Ten to the power `exponent`, for the powers that a `u64` can hold.
pub fn pow10_u64(exponent: u8) -> (power: u64)
    requires
        exponent <= 19,
    ensures
        power == pow10(exponent as nat),
{
    let mut power: u64 = 1;
    let mut done: u8 = 0;
    while done < exponent
        invariant
            done <= exponent <= 19,
            power == pow10(done as nat),
        decreases exponent - done,
    {
        assert(power * 10 <= u64::MAX) by {
            lemma_pow10_monotone((done + 1) as nat, 19);
            lemma_pow10_19();
        }
        power = power * 10;
        done += 1;
    }
    power
}

/// The character for a digit value.
fn digit_to_char(digit: u8) -> (c: char)
    requires
        digit < 10,
    ensures
        c == digit_char(digit as nat),
{
    (digit + 48) as char
}

/// Appends the decimal notation of `n` to `out`.
pub fn push_decimal(out: &mut Vec<char>, n: u64)
    ensures
        final(out)@ == old(out)@ + decimal_text(n as nat),
    decreases n,
{
    if n >= 10 {
        push_decimal(out, n / 10);
    }
    out.push(digit_to_char((n % 10) as u8));
}

/// The decimal notation of `n`, one character per digit.
pub fn decimal_digits(n: u64) -> (digits: Vec<char>)
    ensures
        digits@ == decimal_text(n as nat),
{
    let mut digits: Vec<char> = Vec::new();
    push_decimal(&mut digits, n);
    digits
}

} // verus!
