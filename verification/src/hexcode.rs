//! Bytes written as hexadecimal text and read back, by the `hex` crate.

use vstd::prelude::*;
use vstd::utf8::encode_utf8;

use crate::text::{dec, hex_digit};

verus! {

/// Bytes as hexadecimal text, two digits for each byte.
pub open spec fn hex_text(bytes: Seq<u8>, upper: bool) -> Seq<char> {
    Seq::new(
        2 * bytes.len(),
        |i: int|
            if i % 2 == 0 {
                hex_digit(bytes[i / 2] as int / 16, upper)
            } else {
                hex_digit(bytes[i / 2] as int % 16, upper)
            },
    )
}

/// The value of an ASCII hexadecimal digit of either case.
pub open spec fn digit_value(c: u8) -> Option<int> {
    if 48 <= c <= 57 {
        Some(c - 48)
    } else if 65 <= c <= 70 {
        Some(c - 55)
    } else if 97 <= c <= 102 {
        Some(c - 87)
    } else {
        None
    }
}

/// Why a text is not the hexadecimal form of any bytes.
#[derive(Debug, Clone, Copy, PartialEq, Eq, Structural)]
pub enum HexError {
    InvalidCharacter { c: char, index: usize },
    OddLength,
    InvalidLength,
}

/// The place of the first byte from `from` on that is no hexadecimal digit.
pub open spec fn first_non_digit(text: Seq<u8>, from: int) -> Option<int>
    decreases text.len() - from,
{
    if from < 0 || from >= text.len() {
        None
    } else if digit_value(text[from]) is None {
        Some(from)
    } else {
        first_non_digit(text, from + 1)
    }
}

/// The bytes that pairs of hexadecimal digits stand for.
pub open spec fn paired(text: Seq<u8>) -> Seq<u8> {
    Seq::new(
        text.len() / 2,
        |i: int| (16 * digit_value(text[2 * i])->0 + digit_value(text[2 * i + 1])->0) as u8,
    )
}

/// The bytes that a hexadecimal text stands for. A text of odd length is refused first; after that the first
/// byte that is no digit is named with its place.
pub open spec fn hex_decoded(text: Seq<char>) -> std::result::Result<Seq<u8>, HexError> {
    let bytes = encode_utf8(text);
    if bytes.len() % 2 != 0 {
        Err(HexError::OddLength)
    } else {
        match first_non_digit(bytes, 0) {
            Some(at) => Err(HexError::InvalidCharacter { c: bytes[at] as char, index: at as usize }),
            None => Ok(paired(bytes)),
        }
    }
}

/// `hex::encode_upper`: the bytes as hexadecimal text with capital letters.
#[verifier::external_body]
pub(crate) fn encode_upper(bytes: &[u8]) -> (text: String)
    ensures
        text@ == hex_text(bytes@, true),
{
    hex::encode_upper(bytes)
}

/// `hex::encode`: the bytes as hexadecimal text with small letters.
#[verifier::external_body]
pub(crate) fn encode(bytes: &[u8]) -> (text: String)
    ensures
        text@ == hex_text(bytes@, false),
{
    hex::encode(bytes)
}

/// `hex::decode`: the bytes that a text of digit pairs stands for, or why it stands for none: an odd number of
/// bytes, or the first byte that is no digit.
#[verifier::external_body]
pub(crate) fn decode(text: &str) -> (bytes: std::result::Result<Vec<u8>, HexError>)
    ensures
        match bytes {
            Ok(bytes) => hex_decoded(text@) == std::result::Result::<Seq<u8>, HexError>::Ok(bytes@),
            Err(error) => hex_decoded(text@) == std::result::Result::<Seq<u8>, HexError>::Err(error),
        },
{
    match hex::decode(text) {
        Ok(bytes) => Ok(bytes),
        Err(hex::FromHexError::OddLength) => Err(HexError::OddLength),
        Err(hex::FromHexError::InvalidHexCharacter { c, index }) => Err(HexError::InvalidCharacter { c, index }),
        Err(hex::FromHexError::InvalidStringLength) => Err(HexError::InvalidLength),
    }
}

/// A character as `Debug` shows it, between quotes and escaped where it needs to be.
pub uninterp spec fn quoted_char(c: char) -> Seq<char>;

/// The text of a refusal to decode.
pub open spec fn hex_error_text(error: HexError) -> Seq<char> {
    match error {
        HexError::InvalidCharacter { c, index } => "Invalid character "@ + quoted_char(c) + " at position "@ + dec(
            index as nat,
        ),
        HexError::OddLength => "Odd number of digits"@,
        HexError::InvalidLength => "Invalid string length"@,
    }
}

/// The `Display` text of `hex::FromHexError`: a fixed text for each refusal, with the character as `Debug`
/// shows it and its place in decimal where a character was refused.
#[verifier::external_body]
pub(crate) fn error_message(error: HexError) -> (text: String)
    ensures
        match error {
            HexError::InvalidCharacter { c, index } => text@ == "Invalid character "@ + quoted_char(c)
                + " at position "@ + dec(index as nat),
            HexError::OddLength => text@ == "Odd number of digits"@,
            HexError::InvalidLength => text@ == "Invalid string length"@,
        },
{
    let error = match error {
        HexError::InvalidCharacter { c, index } => hex::FromHexError::InvalidHexCharacter { c, index },
        HexError::OddLength => hex::FromHexError::OddLength,
        HexError::InvalidLength => hex::FromHexError::InvalidStringLength,
    };
    error.to_string()
}

proof fn all_digits_have_no_first_other(text: Seq<u8>, from: int)
    requires
        0 <= from,
        forall|i: int| 0 <= i < text.len() ==> digit_value(#[trigger] text[i]) is Some,
    ensures
        first_non_digit(text, from) is None,
    decreases text.len() - from,
{
    if from < text.len() {
        all_digits_have_no_first_other(text, from + 1);
    }
}

/// The hexadecimal text of bytes, in either case, stands for those bytes.
pub proof fn hex_round_trip(bytes: Seq<u8>, upper: bool)
    ensures
        hex_decoded(hex_text(bytes, upper)) == std::result::Result::<Seq<u8>, HexError>::Ok(bytes),
{
    let text = hex_text(bytes, upper);
    let encoded = encode_utf8(text);
    assert(vstd::utf8::is_ascii_chars(text));
    vstd::utf8::is_ascii_chars_encode_utf8(text);
    assert forall|i: int| 0 <= i < encoded.len() implies digit_value(#[trigger] encoded[i]) is Some by {
        assert(text[i] as u8 == encoded[i]);
    }
    all_digits_have_no_first_other(encoded, 0);
    assert forall|i: int| 0 <= i < bytes.len() implies paired(encoded)[i] == #[trigger] bytes[i] by {
        assert(text[2 * i] as u8 == encoded[2 * i]);
        assert(text[2 * i + 1] as u8 == encoded[2 * i + 1]);
        assert((2 * i) / 2 == i && (2 * i) % 2 == 0 && (2 * i + 1) / 2 == i && (2 * i + 1) % 2 == 1);
    }
    assert(paired(encoded) =~= bytes);
}

/// Different bytes have different hexadecimal texts.
pub proof fn hex_text_tells_bytes_apart(a: Seq<u8>, b: Seq<u8>, upper: bool)
    requires
        hex_text(a, upper) == hex_text(b, upper),
    ensures
        a == b,
{
    hex_round_trip(a, upper);
    hex_round_trip(b, upper);
}

}
