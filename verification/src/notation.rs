//! What the texts of numbers and bytes say, and what the operations on texts do.

use vstd::prelude::*;

use crate::hexcode::hex_text;
use crate::number::{digit_in_base, number_from, number_of, ParseFault};
use crate::text::{
    after_prefix, dec, dec3, digit_char, hex2, hex4, hex_digit, hex_digits, joined, left_aligned, lowered, occurs,
    right_aligned, signed_dec, stands_at, text_before, trimmed, trimmed_end, trimmed_start, uppered, white_space,
};

verus! {

/// The code points of the digits: those of the ten digits from 48 on, those of the six letters from 65 on, or from 97 on
/// where they are small.
pub proof fn digits_have_codes(digit: int, upper: bool)
    requires
        0 <= digit < 16,
    ensures
        digit < 10 ==> digit_char(digit) as int == 48 + digit,
        hex_digit(digit, upper) as int == (if digit < 10 {
            48 + digit
        } else if upper {
            65 + (digit - 10)
        } else {
            97 + (digit - 10)
        }),
        digit_in_base(hex_digit(digit, upper), 16) == Some(digit),
        digit < 10 ==> digit_in_base(digit_char(digit), 10) == Some(digit),
{
}

proof fn number_goes_on(digits: Seq<char>, last: char, from: int, value: int, base: int, max: int)
    requires
        0 <= from <= digits.len(),
    ensures
        match number_from(digits, from, value, base, max) {
            Err(fault) => number_from(digits.push(last), from, value, base, max) == std::result::Result::<
                int,
                ParseFault,
            >::Err(fault),
            Ok(read) => match digit_in_base(last, base) {
                None => number_from(digits.push(last), from, value, base, max) == std::result::Result::<
                    int,
                    ParseFault,
                >::Err(ParseFault::InvalidDigit),
                Some(digit) => if read * base + digit > max {
                    number_from(digits.push(last), from, value, base, max) == std::result::Result::<
                        int,
                        ParseFault,
                    >::Err(ParseFault::TooLarge)
                } else {
                    number_from(digits.push(last), from, value, base, max) == std::result::Result::<
                        int,
                        ParseFault,
                    >::Ok(read * base + digit)
                },
            },
        },
    decreases digits.len() - from,
{
    let more = digits.push(last);
    if from < digits.len() {
        assert(more[from] == digits[from]);
        if let Some(digit) = digit_in_base(digits[from], base) {
            if value * base + digit <= max {
                number_goes_on(digits, last, from + 1, value * base + digit, base, max);
            }
        }
    } else {
        assert(more[from] == last);
        reveal_with_fuel(number_from, 2);
    }
}

proof fn decimal_starts_with_digit(n: nat)
    ensures
        dec(n).len() > 0,
        '0' <= dec(n)[0] <= '9',
        forall|i: int| 0 <= i < dec(n).len() ==> '0' <= #[trigger] dec(n)[i] <= '9',
        n > 0 ==> dec(n)[0] != '0',
    decreases n,
{
    if n >= 10 {
        decimal_starts_with_digit(n / 10);
    }
}

proof fn decimal_is_number(n: nat, max: int)
    requires
        0 <= max,
    ensures
        n <= max ==> number_from(dec(n), 0, 0, 10, max) == std::result::Result::<int, ParseFault>::Ok(n as int),
        n > max ==> number_from(dec(n), 0, 0, 10, max) == std::result::Result::<int, ParseFault>::Err(
            ParseFault::TooLarge,
        ),
    decreases n,
{
    if n < 10 {
        digits_have_codes(n as int, true);
        assert(dec(n) =~= Seq::<char>::empty().push(digit_char(n as int)));
        number_goes_on(Seq::empty(), digit_char(n as int), 0, 0, 10, max);
    } else {
        decimal_is_number(n / 10, max);
        digits_have_codes((n % 10) as int, true);
        number_goes_on(dec(n / 10), digit_char((n % 10) as int), 0, 0, 10, max);
    }
}

/// The decimal text of a number reads as that number, also behind a plus sign, where it is in range, and is too large
/// where it is not. It is made of digits, without a zero in front.
pub proof fn decimal_reads_back(n: nat, max: int)
    requires
        0 <= max,
    ensures
        n <= max ==> number_of(dec(n), 10, max) == std::result::Result::<int, ParseFault>::Ok(n as int),
        n > max ==> number_of(dec(n), 10, max) == std::result::Result::<int, ParseFault>::Err(ParseFault::TooLarge),
        forall|i: int| 0 <= i < dec(n).len() ==> '0' <= #[trigger] dec(n)[i] <= '9',
        n > 0 ==> dec(n)[0] != '0',
{
    decimal_starts_with_digit(n);
    decimal_is_number(n, max);
}

proof fn number_behind_sign(digits: Seq<char>, sign: char, from: int, value: int, base: int, max: int)
    requires
        0 <= from <= digits.len(),
    ensures
        number_from(seq![sign] + digits, from + 1, value, base, max) == number_from(digits, from, value, base, max),
    decreases digits.len() - from,
{
    let more = seq![sign] + digits;
    if from < digits.len() {
        assert(more[from + 1] == digits[from]);
        if let Some(digit) = digit_in_base(digits[from], base) {
            if value * base + digit <= max {
                number_behind_sign(digits, sign, from + 1, value * base + digit, base, max);
            }
        }
    }
}

/// A plus sign before a number changes nothing; an empty text, a sign alone and a character that is no digit are no
/// numbers.
pub proof fn numbers_may_have_a_plus(text: Seq<char>, base: int, max: int)
    requires
        2 <= base <= 16,
        0 <= max,
    ensures
        number_of(Seq::empty(), base, max) == std::result::Result::<int, ParseFault>::Err(ParseFault::Empty),
        number_of(seq!['+'], base, max) == std::result::Result::<int, ParseFault>::Err(ParseFault::InvalidDigit),
        number_of(seq!['-'], base, max) == std::result::Result::<int, ParseFault>::Err(ParseFault::InvalidDigit),
        text.len() > 0 && text[0] != '+' && text[0] != '-' ==> number_of(seq!['+'] + text, base, max) == number_of(
            text,
            base,
            max,
        ),
        text.len() > 0 && digit_in_base(text[0], base) is None && text[0] != '+' ==> number_of(text, base, max)
            == std::result::Result::<int, ParseFault>::Err(ParseFault::InvalidDigit),
{
    if text.len() > 0 {
        let signed = seq!['+'] + text;
        assert(signed[0] == '+');
        number_behind_sign(text, '+', 0, 0, base, max);
    }
}

proof fn hexadecimal_goes_on(digits: Seq<char>, digit: int, upper: bool, value: int, max: int)
    requires
        number_from(digits, 0, 0, 16, max) == std::result::Result::<int, ParseFault>::Ok(value),
        0 <= digit < 16,
        16 * value + digit <= max,
    ensures
        number_from(digits.push(hex_digit(digit, upper)), 0, 0, 16, max) == std::result::Result::<int, ParseFault>::Ok(
            16 * value + digit,
        ),
        is_hex_digit(hex_digit(digit, upper), upper),
{
    digits_have_codes(digit, upper);
    number_goes_on(digits, hex_digit(digit, upper), 0, 0, 16, max);
}

/// Two hexadecimal digits tell a byte, with capital or small letters, the higher digit first.
pub proof fn two_digits_tell_a_byte(byte: u8, upper: bool)
    ensures
        hex2(byte, upper).len() == 2,
        number_of(hex2(byte, upper), 16, 255) == std::result::Result::<int, ParseFault>::Ok(byte as int),
        is_hex_digit(hex2(byte, upper)[0], upper),
        is_hex_digit(hex2(byte, upper)[1], upper),
{
    let none = Seq::<char>::empty();
    let (high, low) = (byte as int / 16, byte as int % 16);
    hexadecimal_goes_on(none, high, upper, 0, 255);
    let one = none.push(hex_digit(high, upper));
    hexadecimal_goes_on(one, low, upper, high, 255);
    assert(hex2(byte, upper) =~= one.push(hex_digit(low, upper)));
}

/// Four hexadecimal digits tell a word, with capital or small letters, the highest digit first, whatever larger number
/// would be in range too.
pub proof fn four_digits_tell_a_word(word: u16, upper: bool, max: int)
    requires
        65535 <= max,
    ensures
        hex4(word, upper).len() == 4,
        number_of(hex4(word, upper), 16, max) == std::result::Result::<int, ParseFault>::Ok(word as int),
        forall|i: int| 0 <= i < 4 ==> is_hex_digit(#[trigger] hex4(word, upper)[i], upper),
{
    let none = Seq::<char>::empty();
    let n = word as int;
    hexadecimal_goes_on(none, n / 4096, upper, 0, max);
    let one = none.push(hex_digit(n / 4096, upper));
    assert(16 * (n / 4096) + n / 256 % 16 == n / 256);
    hexadecimal_goes_on(one, n / 256 % 16, upper, n / 4096, max);
    let two = one.push(hex_digit(n / 256 % 16, upper));
    assert(16 * (n / 256) + n / 16 % 16 == n / 16);
    hexadecimal_goes_on(two, n / 16 % 16, upper, n / 256, max);
    let three = two.push(hex_digit(n / 16 % 16, upper));
    hexadecimal_goes_on(three, n % 16, upper, n / 16, max);
    assert(hex4(word, upper) =~= three.push(hex_digit(n % 16, upper)));
}

/// Whether a character is a hexadecimal digit with a capital or with a small letter.
pub open spec fn is_hex_digit(c: char, upper: bool) -> bool {
    ||| '0' <= c <= '9'
    ||| upper && 'A' <= c <= 'F'
    ||| !upper && 'a' <= c <= 'f'
}

/// The hexadecimal text of bytes is that of each of them, two digits each, behind one another.
pub proof fn bytes_are_two_digits_each(bytes: Seq<u8>, upper: bool, i: int)
    requires
        0 <= i < bytes.len(),
    ensures
        hex_text(bytes, upper).len() == 2 * bytes.len(),
        hex_text(bytes, upper).subrange(2 * i, 2 * i + 2) == hex2(bytes[i], upper),
{
    assert((2 * i + 1) / 2 == i && (2 * i + 1) % 2 == 1 && (2 * i) / 2 == i && (2 * i) % 2 == 0);
    assert(hex_text(bytes, upper).subrange(2 * i, 2 * i + 2) =~= hex2(bytes[i], upper));
}

/// A number below zero has a minus sign before its decimal text. Three digits tell a number below a thousand, with zeros
/// in front.
pub proof fn signs_and_zeros(n: int)
    ensures
        n >= 0 ==> signed_dec(n) == dec(n as nat),
        n < 0 ==> signed_dec(n).len() == dec((-n) as nat).len() + 1 && signed_dec(n)[0] == '-' && signed_dec(n).skip(1)
            == dec((-n) as nat),
        0 <= n < 1000 ==> dec3(n).len() == 3 && 100 * (dec3(n)[0] as int - 48) + 10 * (dec3(n)[1] as int - 48) + (
        dec3(n)[2] as int - 48) == n,
{
    if n < 0 {
        reveal_strlit("-");
        assert(signed_dec(n).skip(1) =~= dec((-n) as nat));
    }
}

/// Lowering and raising the case changes the letters of ASCII alone, character by character.
pub proof fn case_is_changed_by_letter(text: Seq<char>, i: int)
    requires
        0 <= i < text.len(),
    ensures
        lowered(text).len() == text.len(),
        lowered(text)[i] as int == (if 65 <= text[i] as int <= 90 {
            text[i] as int + 32
        } else {
            text[i] as int
        }),
        uppered(text).len() == text.len(),
        uppered(text)[i] as int == (if 97 <= text[i] as int <= 122 {
            text[i] as int - 32
        } else {
            text[i] as int
        }),
{
}

/// A text occurs in another where its characters stand in a row.
pub proof fn occurring_is_standing_in_a_row(text: Seq<char>, needle: Seq<char>)
    ensures
        occurs(text, needle) <==> exists|before: Seq<char>, after: Seq<char>| text == #[trigger] ((before + needle) + after),
{
    if occurs(text, needle) {
        let at = choose|at: int| stands_at(text, needle, at);
        let before = text.take(at);
        let after = text.skip(at + needle.len());
        assert(text =~= (before + needle) + after);
        assert(text == (before + needle) + after);
    }
    if exists|before: Seq<char>, after: Seq<char>| text == #[trigger] ((before + needle) + after) {
        let (before, after) = choose|before: Seq<char>, after: Seq<char>| text == #[trigger] ((before + needle) + after);
        assert(text.subrange(before.len() as int, before.len() as int + needle.len()) =~= needle);
        assert(stands_at(text, needle, before.len() as int));
    }
}

/// What is behind a prefix, together with the prefix, is the text.
pub proof fn prefix_and_rest_make_text(text: Seq<char>, prefix: Seq<char>, rest: Seq<char>)
    ensures
        after_prefix(text, prefix) == Some(rest) <==> text == prefix + rest,
{
    if after_prefix(text, prefix) == Some(rest) {
        assert(text =~= prefix + rest);
    }
    if text == prefix + rest {
        assert(text.subrange(0, prefix.len() as int) =~= prefix);
        assert(text.skip(prefix.len() as int) =~= rest);
    }
}

/// Whether every character of a text is white space.
pub open spec fn all_white(text: Seq<char>) -> bool {
    forall|i: int| 0 <= i < text.len() ==> white_space(#[trigger] text[i])
}

/// The code points of white space.
pub proof fn white_space_has_codes(c: char)
    ensures
        white_space(c) <==> {
            let code = c as int;
            ||| 9 <= code <= 13
            ||| code == 32
            ||| code == 133
            ||| code == 160
            ||| code == 5760
            ||| 8192 <= code <= 8202
            ||| code == 8232
            ||| code == 8233
            ||| code == 8239
            ||| code == 8287
            ||| code == 12288
        },
{
}

proof fn start_is_trimmed(text: Seq<char>) -> (before: Seq<char>)
    ensures
        text == before + trimmed_start(text),
        all_white(before),
        trimmed_start(text).len() > 0 ==> !white_space(trimmed_start(text)[0]),
    decreases text.len(),
{
    if text.len() > 0 && white_space(text[0]) {
        let rest = start_is_trimmed(text.skip(1));
        let before = seq![text[0]] + rest;
        let kept = trimmed_start(text.skip(1));
        assert(trimmed_start(text) == kept);
        assert(text =~= seq![text[0]] + text.skip(1));
        assert(seq![text[0]] + (rest + kept) =~= before + kept);
        assert forall|i: int| 0 <= i < before.len() implies white_space(#[trigger] before[i]) by {
            if i > 0 {
                assert(before[i] == rest[i - 1]);
            }
        }
        before
    } else {
        assert(text =~= Seq::<char>::empty() + text);
        Seq::empty()
    }
}

proof fn end_is_trimmed(text: Seq<char>) -> (after: Seq<char>)
    ensures
        text == trimmed_end(text) + after,
        all_white(after),
        trimmed_end(text).len() > 0 ==> !white_space(trimmed_end(text).last()),
    decreases text.len(),
{
    if text.len() > 0 && white_space(text.last()) {
        let rest = end_is_trimmed(text.drop_last());
        let after = rest.push(text.last());
        let kept = trimmed_end(text.drop_last());
        assert(trimmed_end(text) == kept);
        assert(text =~= text.drop_last().push(text.last()));
        assert((kept + rest).push(text.last()) =~= kept + after);
        after
    } else {
        assert(text =~= text + Seq::<char>::empty());
        Seq::empty()
    }
}

/// Trimming takes the white space at both ends of a text and nothing else.
pub proof fn trimming_takes_the_ends(text: Seq<char>) -> (ends: (Seq<char>, Seq<char>))
    ensures
        text == ends.0 + trimmed(text) + ends.1,
        all_white(ends.0),
        all_white(ends.1),
        trimmed(text).len() > 0 ==> !white_space(trimmed(text)[0]) && !white_space(trimmed(text).last()),
{
    let before = start_is_trimmed(text);
    let after = end_is_trimmed(trimmed_start(text));
    assert(text =~= before + trimmed(text) + after);
    if trimmed(text).len() > 0 {
        assert(trimmed_start(text)[0] == trimmed(text)[0]);
    }
    (before, after)
}

/// One text comes before another where they are alike up to a place at which it ends, or has the lower character.
pub proof fn texts_differ_at_a_place(a: Seq<char>, b: Seq<char>)
    ensures
        text_before(a, b) <==> exists|k: int|
            0 <= k <= a.len() && k < b.len() && #[trigger] a.take(k) == b.take(k) && (k == a.len() || a[k] < b[k]),
    decreases a.len(),
{
    if text_before(a, b) {
        if a.len() == 0 {
            assert(a.take(0) =~= b.take(0));
        } else if a[0] == b[0] {
            texts_differ_at_a_place(a.skip(1), b.skip(1));
            let (c, d) = (a.skip(1), b.skip(1));
            let k = choose|k: int|
                0 <= k <= c.len() && k < d.len() && #[trigger] c.take(k) == d.take(k) && (k == c.len() || c[k] < d[k]);
            assert forall|i: int| 0 <= i < k + 1 implies a[i] == b[i] by {
                if i > 0 {
                    assert(c.take(k)[i - 1] == d.take(k)[i - 1]);
                }
            }
            assert(a.take(k + 1) =~= b.take(k + 1));
        } else {
            assert(a.take(0) =~= b.take(0));
        }
    }
    if exists|k: int|
        0 <= k <= a.len() && k < b.len() && #[trigger] a.take(k) == b.take(k) && (k == a.len() || a[k] < b[k]) {
        let k = choose|k: int|
            0 <= k <= a.len() && k < b.len() && #[trigger] a.take(k) == b.take(k) && (k == a.len() || a[k] < b[k]);
        if k > 0 {
            assert(a.take(k)[0] == b.take(k)[0]);
            texts_differ_at_a_place(a.skip(1), b.skip(1));
            let (c, d) = (a.skip(1), b.skip(1));
            assert forall|i: int| 0 <= i < k - 1 implies c[i] == d[i] by {
                assert(a.take(k)[i + 1] == b.take(k)[i + 1]);
            }
            assert(c.take(k - 1) =~= d.take(k - 1));
        }
    }
}

/// Joining puts the separator between each two texts that follow one another, and nowhere else.
pub proof fn joining_separates(parts: Seq<Seq<char>>, part: Seq<char>, separator: Seq<char>)
    ensures
        joined(Seq::empty(), separator) == Seq::<char>::empty(),
        parts.len() == 0 ==> joined(parts.push(part), separator) == part,
        parts.len() > 0 ==> joined(parts.push(part), separator) == joined(parts, separator) + separator + part,
{
    assert(parts.push(part).drop_last() =~= parts);
}

/// Aligning fills a text up to a width with spaces, on the left or on the right, and never cuts it.
pub proof fn aligning_fills_up(text: Seq<char>, width: int, i: int)
    ensures
        right_aligned(text, width).len() == (if text.len() < width {
            width
        } else {
            text.len() as int
        }),
        left_aligned(text, width).len() == right_aligned(text, width).len(),
        right_aligned(text, width).skip(right_aligned(text, width).len() - text.len()) == text,
        left_aligned(text, width).take(text.len() as int) == text,
        0 <= i < width - text.len() ==> right_aligned(text, width)[i] == ' ' && left_aligned(text, width)[text.len() + i]
            == ' ',
{
    assert(right_aligned(text, width).skip(right_aligned(text, width).len() - text.len()) =~= text);
    assert(left_aligned(text, width).take(text.len() as int) =~= text);
}

proof fn long_hexadecimal_reads_back(n: int, max: int)
    requires
        0 <= n <= max,
    ensures
        hex_digits(n).len() > 0,
        is_hex_digit(hex_digits(n)[0], true),
        number_from(hex_digits(n), 0, 0, 16, max) == std::result::Result::<int, ParseFault>::Ok(n),
    decreases n,
{
    if n < 16 {
        digits_have_codes(n, true);
        assert(hex_digits(n) =~= Seq::<char>::empty().push(hex_digit(n, true)));
        number_goes_on(Seq::empty(), hex_digit(n, true), 0, 0, 16, max);
    } else {
        long_hexadecimal_reads_back(n / 16, max);
        digits_have_codes(n % 16, true);
        number_goes_on(hex_digits(n / 16), hex_digit(n % 16, true), 0, 0, 16, max);
    }
}

/// The hexadecimal text of a number with at least four digits reads as that number.
pub proof fn hexadecimal_reads_back(n: u32)
    ensures
        crate::text::hex_at_least4(n).len() >= 4,
        number_of(crate::text::hex_at_least4(n), 16, 0xffff_ffff) == std::result::Result::<int, ParseFault>::Ok(
            n as int,
        ),
{
    if n <= 0xffff {
        four_digits_tell_a_word(n as u16, true, 0xffff_ffff);
    } else {
        long_hexadecimal_reads_back(n as int, 0xffff_ffff);
        reveal_with_fuel(hex_digits, 5);
    }
}

}
