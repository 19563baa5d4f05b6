//! Text from bytes, by the standard library.

use vstd::prelude::*;
use vstd::utf8::{decode_utf8, valid_utf8};

use crate::text::{dec, decimal, join2, join4};

verus! {

/// Where bytes stop being UTF-8.
#[derive(Debug, Clone, Copy, PartialEq, Eq)]
pub struct Utf8Fault {
    pub valid_up_to: usize,
    pub error_len: Option<usize>,
}

/// The length of the longest prefix of at most `n` bytes that is UTF-8.
pub open spec fn longest_valid(bytes: Seq<u8>, n: int) -> int
    decreases n,
{
    if n <= 0 {
        0
    } else if valid_utf8(bytes.take(n)) {
        n
    } else {
        longest_valid(bytes, n - 1)
    }
}

/// `Utf8Error::error_len` of bytes that are no UTF-8: how many bytes are wrong, or nothing where the bytes end
/// too early.
pub uninterp spec fn utf8_error_len(bytes: Seq<u8>) -> Option<usize>;

/// `String::from_utf8`: the text that the bytes encode where they are UTF-8; otherwise the length of the longest
/// prefix that is, and how many bytes are wrong there.
#[verifier::external_body]
pub(crate) fn from_utf8(bytes: Vec<u8>) -> (text: std::result::Result<String, Utf8Fault>)
    ensures
        match text {
            Ok(text) => valid_utf8(bytes@) && text@ == decode_utf8(bytes@),
            Err(fault) => {
                &&& !valid_utf8(bytes@)
                &&& fault.valid_up_to == longest_valid(bytes@, bytes@.len() as int)
                &&& fault.error_len == utf8_error_len(bytes@)
            },
        },
{
    match String::from_utf8(bytes) {
        Ok(text) => Ok(text),
        Err(error) => Err(
            Utf8Fault {
                valid_up_to: error.utf8_error().valid_up_to(),
                error_len: error.utf8_error().error_len(),
            },
        ),
    }
}

/// `String::from_utf8_lossy` of bytes: what is not UTF-8 in them becomes replacement characters.
pub uninterp spec fn lossy_text(bytes: Seq<u8>) -> Seq<char>;

/// `String::from_utf8_lossy`: the text that the bytes encode where they are UTF-8, and otherwise one with
/// replacement characters, for which there is a name.
#[verifier::external_body]
pub(crate) fn from_utf8_lossy(bytes: &[u8]) -> (text: String)
    ensures
        text@ == lossy_text(bytes@),
        valid_utf8(bytes@) ==> text@ == decode_utf8(bytes@),
{
    String::from_utf8_lossy(bytes).into_owned()
}

/// The text that bytes encode, or the one with replacement characters where they are no UTF-8.
pub open spec fn text_or_lossy(bytes: Seq<u8>) -> Seq<char> {
    if valid_utf8(bytes) {
        decode_utf8(bytes)
    } else {
        lossy_text(bytes)
    }
}

/// The text of a fault.
pub open spec fn fault_text(valid_up_to: nat, error_len: Option<usize>) -> Seq<char> {
    match error_len {
        Some(length) => "invalid utf-8 sequence of "@ + dec(length as nat) + " bytes from index "@ + dec(valid_up_to),
        None => "incomplete utf-8 byte sequence from index "@ + dec(valid_up_to),
    }
}

impl Utf8Fault {
    /// The text of the fault.
    pub fn message(&self) -> (text: String)
        ensures
            text@ == fault_text(self.valid_up_to as nat, self.error_len),
    {
        match self.error_len {
            Some(length) => join4(
                "invalid utf-8 sequence of ",
                decimal(length as u64).as_str(),
                " bytes from index ",
                decimal(self.valid_up_to as u64).as_str(),
            ),
            None => join2("incomplete utf-8 byte sequence from index ", decimal(self.valid_up_to as u64).as_str()),
        }
    }
}

}
