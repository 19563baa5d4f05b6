//! What the user writes on the command line, read and checked.

use vstd::prelude::*;
use vstd::utf8::encode_utf8;

use crate::hexcode::{decode, error_message, hex_decoded, hex_error_text, hex_text};
use crate::hidpp::protocol::spaced_pairs;
use crate::number::{number_is_in_range, number_of, parse_fault_text, parse_number};
use crate::text::{chars_of, dec, decimal, hex2, join2, join4, join_all, joined, stands_at, strip_prefix, texts};
use crate::utf8::{from_utf8_lossy, text_or_lossy};

verus! {

/// A text without any number of prefixes at its start.
pub open spec fn without_prefixes(text: Seq<char>, prefix: Seq<char>) -> Seq<char>
    decreases text.len(),
{
    if prefix.len() > 0 && stands_at(text, prefix, 0) {
        without_prefixes(text.skip(prefix.len() as int), prefix)
    } else {
        text
    }
}

fn strip_hex_prefixes(text: &str) -> (rest: String)
    ensures
        rest@ == without_prefixes(text@, "0x"@),
    decreases text@.len(),
{
    proof {
        reveal_strlit("0x");
    }
    match strip_prefix(text, "0x") {
        Some(rest) => strip_hex_prefixes(rest.as_str()),
        None => text.to_owned(),
    }
}

/// A 16-bit number in hexadecimal, with any number of `0x` in front of it.
pub open spec fn hex_u16_of(text: Seq<char>) -> std::result::Result<u16, Seq<char>> {
    match number_of(without_prefixes(text, "0x"@), 16, 0xffff) {
        Ok(number) => Ok(number as u16),
        Err(fault) => Err(parse_fault_text(fault)),
    }
}

/// Reads a 16-bit number in hexadecimal.
pub fn parse_hex_u16(value: &str) -> (number: std::result::Result<u16, String>)
    ensures
        match number {
            Ok(number) => hex_u16_of(value@) == std::result::Result::<u16, Seq<char>>::Ok(number),
            Err(text) => hex_u16_of(value@) == std::result::Result::<u16, Seq<char>>::Err(text@),
        },
{
    match parse_number(strip_hex_prefixes(value).as_str(), 16, 0xffff) {
        Ok(number) => Ok(number as u16),
        Err(fault) => Err(fault.message().to_owned()),
    }
}

/// A function of a feature: its ordinal from 0 to F, or its wire value, whose lower half is zero.
pub open spec fn function_of(text: Seq<char>) -> std::result::Result<u8, Seq<char>> {
    match number_of(without_prefixes(text, "0x"@), 16, 0xff) {
        Err(fault) => Err(parse_fault_text(fault)),
        Ok(number) => if number <= 0x0f {
            Ok((16 * number) as u8)
        } else if number % 16 == 0 {
            Ok(number as u8)
        } else {
            Err("function must be an ordinal from 0-F or a wire value whose low nibble is zero"@)
        },
    }
}

/// Reads a function of a feature.
pub fn parse_function(value: &str) -> (function: std::result::Result<u8, String>)
    ensures
        match function {
            Ok(function) => function_of(value@) == std::result::Result::<u8, Seq<char>>::Ok(function),
            Err(text) => function_of(value@) == std::result::Result::<u8, Seq<char>>::Err(text@),
        },
{
    match parse_number(strip_hex_prefixes(value).as_str(), 16, 0xff) {
        Err(fault) => Err(fault.message().to_owned()),
        Ok(number) => if number <= 0x0f {
            Ok((16 * number) as u8)
        } else if number % 16 == 0 {
            Ok(number as u8)
        } else {
            Err("function must be an ordinal from 0-F or a wire value whose low nibble is zero".to_owned())
        },
    }
}

/// A function that was read uses the upper half of its byte only, so that a request can carry it.
pub proof fn parsed_function_can_be_sent(text: Seq<char>)
    requires
        function_of(text) is Ok,
    ensures
        function_of(text)->Ok_0 & 0x0f == 0,
{
    number_is_in_range(without_prefixes(text, "0x"@), 16, 0xff);
    let function = function_of(text)->Ok_0;
    assert(function % 16 == 0);
    assert(function & 0x0f == 0) by (bit_vector)
        requires
            function % 16 == 0,
    ;
}

/// Whether a character stands between bytes without meaning anything.
pub open spec fn is_filler(c: char) -> bool {
    c == ' ' || c == '\t' || c == '\n' || c == '\u{c}' || c == '\r' || c == ':'
}

/// A text without the characters that stand between bytes.
pub open spec fn compacted(text: Seq<char>) -> Seq<char>
    decreases text.len(),
{
    if text.len() == 0 {
        Seq::empty()
    } else if is_filler(text.last()) {
        compacted(text.drop_last())
    } else {
        compacted(text.drop_last()).push(text.last())
    }
}

fn compact(text: &str) -> (rest: String)
    ensures
        rest@ == compacted(text@),
{
    let chars = chars_of(text);
    let mut rest = String::new();
    let mut i: usize = 0;
    assert(chars@.take(0) =~= Seq::empty());
    while i < chars.len()
        invariant
            i <= chars.len(),
            rest@ == compacted(chars@.take(i as int)),
        decreases chars.len() - i,
    {
        let c = chars[i];
        assert(chars@.take(i + 1).drop_last() =~= chars@.take(i as int));
        if !(c == ' ' || c == '\t' || c == '\n' || c == '\u{c}' || c == '\r' || c == ':') {
            rest.push(c);
        }
        i = i + 1;
    }
    assert(chars@.take(chars@.len() as int) =~= chars@);
    rest
}

/// Bytes in hexadecimal, with spaces and colons anywhere and `0x` at the start.
pub open spec fn hex_bytes_of(text: Seq<char>) -> std::result::Result<Seq<u8>, Seq<char>> {
    if compacted(text).len() == 0 {
        Ok(Seq::empty())
    } else {
        match hex_decoded(without_prefixes(compacted(text), "0x"@)) {
            Ok(bytes) => Ok(bytes),
            Err(error) => Err(hex_error_text(error)),
        }
    }
}

/// Reads bytes in hexadecimal.
pub fn parse_hex_bytes(value: &str) -> (bytes: std::result::Result<Vec<u8>, String>)
    ensures
        match bytes {
            Ok(bytes) => hex_bytes_of(value@) == std::result::Result::<Seq<u8>, Seq<char>>::Ok(bytes@),
            Err(text) => hex_bytes_of(value@) == std::result::Result::<Seq<u8>, Seq<char>>::Err(text@),
        },
{
    let rest = compact(value);
    if rest.as_str().is_empty() {
        let bytes: Vec<u8> = Vec::new();
        assert(bytes@ =~= Seq::empty());
        return Ok(bytes);
    }
    match decode(strip_hex_prefixes(rest.as_str()).as_str()) {
        Ok(bytes) => Ok(bytes),
        Err(error) => Err(error_message(error)),
    }
}

/// Whether something holds, in words.
pub open spec fn yes_or_no(value: bool) -> Seq<char> {
    if value {
        "yes"@
    } else {
        "no"@
    }
}

/// Whether something holds, in words.
pub fn yes_no(value: bool) -> (word: &'static str)
    ensures
        word@ == yes_or_no(value),
{
    if value {
        "yes"
    } else {
        "no"
    }
}

/// Where a run of numbers a step apart ends that goes on from a place.
pub open spec fn run_end(values: Seq<u16>, step: int, from: int) -> int
    decreases values.len() - from,
{
    if 0 <= from && from + 1 < values.len() && values[from + 1] - values[from] == step {
        run_end(values, step, from + 1)
    } else {
        from
    }
}

/// The parts of a summary from a place on: runs of at least four numbers a step apart, and single numbers.
pub open spec fn summary_parts(values: Seq<u16>, index: int) -> Seq<Seq<char>>
    decreases values.len() - index,
{
    if index < 0 || index >= values.len() {
        Seq::empty()
    } else {
        let step = values[index + 1] - values[index];
        let end = run_end(values, step, index + 1);
        if index + 3 < values.len() && end - index >= 3 && end < values.len() {
            seq![
                dec(values[index] as nat) + "-"@ + dec(values[end] as nat) + " (step "@ + (dec(step as nat) + ")"@),
            ] + summary_parts(values, end + 1)
        } else {
            seq![dec(values[index] as nat)] + summary_parts(values, index + 1)
        }
    }
}

/// Whether the numbers do not fall where a run that goes on from a place is followed.
pub open spec fn run_rises(values: Seq<u16>, step: int, from: int) -> bool
    decreases values.len() - from,
{
    if 0 <= from && from + 1 < values.len() {
        values[from] <= values[from + 1] && (values[from + 1] - values[from] == step ==> run_rises(
            values,
            step,
            from + 1,
        ))
    } else {
        true
    }
}

/// Whether the numbers do not fall wherever a summary from a place on looks for runs.
pub open spec fn can_be_summarized(values: Seq<u16>, index: int) -> bool
    decreases values.len() - index,
{
    if index < 0 || index + 3 >= values.len() {
        true
    } else {
        let step = values[index + 1] - values[index];
        let end = run_end(values, step, index + 1);
        &&& step >= 0
        &&& run_rises(values, step, index + 1)
        &&& if end - index >= 3 && end < values.len() {
            can_be_summarized(values, end + 1)
        } else {
            can_be_summarized(values, index + 1)
        }
    }
}

fn find_run_end(values: &[u16], step: u16, from: usize) -> (end: usize)
    requires
        from < values@.len(),
        run_rises(values@, step as int, from as int),
    ensures
        end == run_end(values@, step as int, from as int),
        from <= end < values@.len(),
{
    let mut end: usize = from;
    while end < values.len() - 1 && values[end + 1] - values[end] == step
        invariant
            from <= end < values@.len(),
            run_rises(values@, step as int, end as int),
            run_end(values@, step as int, from as int) == run_end(values@, step as int, end as int),
        decreases values.len() - end,
    {
        end = end + 1;
    }
    end
}

/// Numbers in a row, with runs of at least four that are a step apart drawn together.
pub fn summarize_numbers(values: &[u16]) -> (text: String)
    requires
        can_be_summarized(values@, 0),
    ensures
        text@ == joined(summary_parts(values@, 0), ", "@),
{
    let mut parts: Vec<String> = Vec::new();
    let mut index: usize = 0;
    assert(texts(parts@) + summary_parts(values@, 0) =~= summary_parts(values@, 0));
    while index < values.len()
        invariant
            index <= values@.len(),
            can_be_summarized(values@, index as int),
            texts(parts@) + summary_parts(values@, index as int) == summary_parts(values@, 0),
        decreases values.len() - index,
    {
        let ghost known = texts(parts@);
        if values.len() - index > 3 {
            let step: u16 = values[index + 1] - values[index];
            let end: usize = find_run_end(values, step, index + 1);
            if end - index >= 3 {
                let mut part = join4(
                    decimal(values[index] as u64).as_str(),
                    "-",
                    decimal(values[end] as u64).as_str(),
                    " (step ",
                );
                part.append(join2(decimal(step as u64).as_str(), ")").as_str());
                let ghost rest = summary_parts(values@, end + 1);
                parts.push(part);
                assert(texts(parts@) =~= known.push(part@));
                assert(known + (seq![part@] + rest) =~= texts(parts@) + rest);
                index = end + 1;
                continue;
            }
        }
        let part = decimal(values[index] as u64);
        let ghost rest = summary_parts(values@, index + 1);
        parts.push(part);
        assert(texts(parts@) =~= known.push(part@));
        assert(known + (seq![part@] + rest) =~= texts(parts@) + rest);
        index = index + 1;
    }
    assert(texts(parts@) =~= summary_parts(values@, 0));
    join_all(&parts, ", ")
}

proof fn ascending_runs_rise(values: Seq<u16>, step: int, from: int)
    requires
        forall|i: int| 0 <= i < values.len() - 1 ==> #[trigger] values[i] <= values[i + 1],
    ensures
        run_rises(values, step, from),
    decreases values.len() - from,
{
    if 0 <= from && from + 1 < values.len() {
        ascending_runs_rise(values, step, from + 1);
    }
}

proof fn run_end_is_a_place(values: Seq<u16>, step: int, from: int)
    requires
        0 <= from < values.len(),
    ensures
        from <= run_end(values, step, from) < values.len(),
    decreases values.len() - from,
{
    if from + 1 < values.len() && values[from + 1] - values[from] == step {
        run_end_is_a_place(values, step, from + 1);
    }
}

/// Numbers that never fall can be summarized.
pub proof fn rising_numbers_can_be_summarized(values: Seq<u16>, index: int)
    requires
        forall|i: int| 0 <= i < values.len() - 1 ==> #[trigger] values[i] <= values[i + 1],
    ensures
        can_be_summarized(values, index),
    decreases values.len() - index,
{
    if 0 <= index && index + 3 < values.len() {
        let step = values[index + 1] - values[index];
        ascending_runs_rise(values, step, index + 1);
        run_end_is_a_place(values, step, index + 1);
        rising_numbers_can_be_summarized(values, run_end(values, step, index + 1) + 1);
        rising_numbers_can_be_summarized(values, index + 1);
    }
}

/// The bytes of a text in pairs from a place on, each as text.
pub open spec fn byte_pairs(bytes: Seq<u8>, from: int) -> Seq<Seq<char>>
    decreases bytes.len() - from,
{
    if from < 0 || from >= bytes.len() {
        Seq::empty()
    } else if from + 2 <= bytes.len() {
        seq![text_or_lossy(bytes.subrange(from, from + 2))] + byte_pairs(bytes, from + 2)
    } else {
        seq![text_or_lossy(bytes.subrange(from, bytes.len() as int))]
    }
}

/// A text with a space after every two bytes.
pub open spec fn spaced_out(text: Seq<char>) -> Seq<char> {
    joined(byte_pairs(encode_utf8(text), 0), " "@)
}

/// Puts a space after every two bytes of a text.
pub fn spaced_from_compact_hex(value: &str) -> (text: String)
    ensures
        text@ == spaced_out(value@),
{
    broadcast use vstd::string::group_string_axioms;

    let bytes = value.as_bytes();
    let mut parts: Vec<String> = Vec::new();
    let mut from: usize = 0;
    let ghost all = byte_pairs(bytes@, 0);
    assert(texts(parts@) + all =~= all);
    while from < bytes.len()
        invariant
            from <= bytes@.len(),
            all == byte_pairs(bytes@, 0),
            texts(parts@) + byte_pairs(bytes@, from as int) == all,
        decreases bytes.len() - from,
    {
        let ghost known = texts(parts@);
        let end: usize = if bytes.len() - from >= 2 { from + 2 } else { bytes.len() };
        let part = from_utf8_lossy(vstd::slice::slice_subrange(bytes, from, end));
        let ghost rest = byte_pairs(bytes@, end as int);
        assert(part@ == text_or_lossy(bytes@.subrange(from as int, end as int)));
        parts.push(part);
        assert(texts(parts@) =~= known.push(part@));
        assert(byte_pairs(bytes@, from as int) =~= seq![part@] + rest);
        assert(known + (seq![part@] + rest) =~= texts(parts@) + rest);
        from = end;
    }
    assert(texts(parts@) =~= all);
    join_all(&parts, " ")
}

proof fn ascii_pair_is_its_text(pair: Seq<u8>, chars: Seq<char>)
    requires
        encode_utf8(chars) == pair,
    ensures
        text_or_lossy(pair) == chars,
{
    vstd::utf8::encode_utf8_valid_utf8(chars);
    vstd::utf8::encode_utf8_decode_utf8(chars);
}

proof fn hex_pairs_from(bytes: Seq<u8>, upper: bool, from: int)
    requires
        0 <= from <= bytes.len(),
    ensures
        byte_pairs(encode_utf8(hex_text(bytes, upper)), 2 * from) == bytes.skip(from).map_values(
            |byte: u8| hex2(byte, upper),
        ),
    decreases bytes.len() - from,
{
    let text = hex_text(bytes, upper);
    let encoded = encode_utf8(text);
    let all = bytes.skip(from).map_values(|byte: u8| hex2(byte, upper));
    assert(vstd::utf8::is_ascii_chars(text));
    vstd::utf8::is_ascii_chars_encode_utf8(text);
    if from < bytes.len() {
        hex_pairs_from(bytes, upper, from + 1);
        let chars = hex2(bytes[from], upper);
        let pair = encoded.subrange(2 * from, 2 * from + 2);
        assert(vstd::utf8::is_ascii_chars(chars));
        vstd::utf8::is_ascii_chars_encode_utf8(chars);
        assert((2 * from) / 2 == from && (2 * from) % 2 == 0 && (2 * from + 1) / 2 == from && (2 * from + 1) % 2 == 1);
        assert(text[2 * from] == chars[0]);
        assert(text[2 * from + 1] == chars[1]);
        assert(text[2 * from] as u8 == encoded[2 * from]);
        assert(text[2 * from + 1] as u8 == encoded[2 * from + 1]);
        assert(chars[0] as u8 == encode_utf8(chars)[0]);
        assert(chars[1] as u8 == encode_utf8(chars)[1]);
        assert(encode_utf8(chars) =~= pair);
        ascii_pair_is_its_text(pair, chars);
        let rest = bytes.skip(from + 1).map_values(|byte: u8| hex2(byte, upper));
        assert(all =~= seq![chars] + rest);
    } else {
        assert(all =~= Seq::empty());
    }
}

/// The hexadecimal text of bytes, spaced out, is the spaced form of the bytes.
pub proof fn spaced_hex_text_is_spaced_pairs(bytes: Seq<u8>)
    ensures
        spaced_out(hex_text(bytes, true)) == spaced_pairs(bytes),
{
    hex_pairs_from(bytes, true, 0);
    assert(bytes.skip(0) =~= bytes);
}

}
