//! Unsigned numbers read from text, the way the standard library reads them.

use vstd::prelude::*;

use crate::text::chars_of;

verus! {

/// Why a text is no number.
#[derive(Debug, Clone, Copy, PartialEq, Eq, Structural)]
pub enum ParseFault {
    Empty,
    InvalidDigit,
    TooLarge,
}

/// The text of a fault.
pub open spec fn parse_fault_text(fault: ParseFault) -> Seq<char> {
    match fault {
        ParseFault::Empty => "cannot parse integer from empty string"@,
        ParseFault::InvalidDigit => "invalid digit found in string"@,
        ParseFault::TooLarge => "number too large to fit in target type"@,
    }
}

impl ParseFault {
    /// The text of the fault.
    pub fn message(self) -> (text: &'static str)
        ensures
            text@ == parse_fault_text(self),
    {
        match self {
            ParseFault::Empty => "cannot parse integer from empty string",
            ParseFault::InvalidDigit => "invalid digit found in string",
            ParseFault::TooLarge => "number too large to fit in target type",
        }
    }
}

/// The value of a digit in a base of at most sixteen.
pub open spec fn digit_in_base(c: char, base: int) -> Option<int> {
    let value: int = if '0' <= c && c <= '9' {
        c as int - 48
    } else if 'a' <= c && c <= 'f' {
        c as int - 87
    } else if 'A' <= c && c <= 'F' {
        c as int - 55
    } else {
        base
    };
    if value < base {
        Some(value)
    } else {
        None
    }
}

/// The number that the digits from `from` on make of what was read before them. What is no digit, and what
/// makes the number exceed `max`, ends the reading where it stands.
pub open spec fn number_from(
    digits: Seq<char>,
    from: int,
    value: int,
    base: int,
    max: int,
) -> std::result::Result<int, ParseFault>
    decreases digits.len() - from,
{
    if from < 0 || from >= digits.len() {
        Ok(value)
    } else {
        match digit_in_base(digits[from], base) {
            None => Err(ParseFault::InvalidDigit),
            Some(digit) => if value * base + digit > max {
                Err(ParseFault::TooLarge)
            } else {
                number_from(digits, from + 1, value * base + digit, base, max)
            },
        }
    }
}

/// The number that a text stands for: digits, with a plus sign in front of them or none.
pub open spec fn number_of(text: Seq<char>, base: int, max: int) -> std::result::Result<int, ParseFault> {
    if text.len() == 0 {
        Err(ParseFault::Empty)
    } else if text.len() == 1 && (text[0] == '+' || text[0] == '-') {
        Err(ParseFault::InvalidDigit)
    } else if text[0] == '+' {
        number_from(text, 1, 0, base, max)
    } else {
        number_from(text, 0, 0, base, max)
    }
}

fn digit_value_in(c: char, base: u64) -> (digit: Option<u64>)
    requires
        base <= 16,
    ensures
        match digit {
            Some(digit) => digit_in_base(c, base as int) == Some(digit as int) && digit < base,
            None => digit_in_base(c, base as int) is None,
        },
{
    let value: u64 = if '0' <= c && c <= '9' {
        (c as u32 - 48) as u64
    } else if 'a' <= c && c <= 'f' {
        (c as u32 - 87) as u64
    } else if 'A' <= c && c <= 'F' {
        (c as u32 - 55) as u64
    } else {
        base
    };
    if value < base {
        Some(value)
    } else {
        None
    }
}

/// Reads an unsigned number of at most `max` in base ten or sixteen, or any other up to that.
pub fn parse_number(text: &str, base: u64, max: u64) -> (number: std::result::Result<u64, ParseFault>)
    requires
        base <= 16,
    ensures
        match number {
            Ok(number) => number_of(text@, base as int, max as int) == std::result::Result::<int, ParseFault>::Ok(
                number as int,
            ) && number <= max,
            Err(fault) => number_of(text@, base as int, max as int) == std::result::Result::<int, ParseFault>::Err(
                fault,
            ),
        },
{
    let chars = chars_of(text);
    if chars.len() == 0 {
        return Err(ParseFault::Empty);
    }
    if chars.len() == 1 && (chars[0] == '+' || chars[0] == '-') {
        return Err(ParseFault::InvalidDigit);
    }
    let mut i: usize = if chars[0] == '+' { 1 } else { 0 };
    let mut value: u64 = 0;
    while i < chars.len()
        invariant
            i <= chars.len(),
            base <= 16,
            value <= max,
            chars@ == text@,
            number_of(text@, base as int, max as int) == number_from(
                chars@,
                i as int,
                value as int,
                base as int,
                max as int,
            ),
        decreases chars.len() - i,
    {
        match digit_value_in(chars[i], base) {
            None => {
                return Err(ParseFault::InvalidDigit);
            },
            Some(digit) => {
                assert(value * base + digit <= u64::MAX * 16 + 16) by (nonlinear_arith)
                    requires
                        value <= u64::MAX,
                        base <= 16,
                        digit <= 16,
                ;
                let next: u128 = value as u128 * base as u128 + digit as u128;
                if next > max as u128 {
                    return Err(ParseFault::TooLarge);
                }
                value = next as u64;
            },
        }
        i = i + 1;
    }
    Ok(value)
}

proof fn number_from_is_in_range(digits: Seq<char>, from: int, value: int, base: int, max: int)
    requires
        0 <= value <= max,
        0 <= base,
    ensures
        number_from(digits, from, value, base, max) matches Ok(number) ==> 0 <= number <= max,
    decreases digits.len() - from,
{
    if 0 <= from < digits.len() {
        if let Some(digit) = digit_in_base(digits[from], base) {
            assert(value * base + digit >= 0) by (nonlinear_arith)
                requires
                    value >= 0,
                    base >= 0,
                    digit >= 0,
            ;
            if value * base + digit <= max {
                number_from_is_in_range(digits, from + 1, value * base + digit, base, max);
            }
        }
    }
}

/// A number that was read is not negative and not above the maximum.
pub proof fn number_is_in_range(text: Seq<char>, base: int, max: int)
    requires
        0 <= base,
        0 <= max,
    ensures
        number_of(text, base, max) matches Ok(number) ==> 0 <= number <= max,
{
    number_from_is_in_range(text, 0, 0, base, max);
    number_from_is_in_range(text, 1, 0, base, max);
}

}
