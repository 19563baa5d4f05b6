//! Text built from numbers and characters, and the questions the crate asks of text.

use vstd::prelude::*;

verus! {

broadcast use vstd::string::group_string_axioms;

/// `String::push` appends one character to the text and changes nothing else.
pub assume_specification[ String::push ](text: &mut String, c: char)
    ensures
        final(text)@ == old(text)@.push(c),
;

/// The decimal digit with value `d`.
pub open spec fn digit_char(d: int) -> char {
    (48 + d) as char
}

/// Decimal text of a natural number, without leading zeros.
pub open spec fn dec(n: nat) -> Seq<char>
    decreases n,
{
    if n < 10 {
        seq![digit_char(n as int)]
    } else {
        dec(n / 10).push(digit_char((n % 10) as int))
    }
}

/// Decimal text of an integer, with a minus sign where it is negative.
pub open spec fn signed_dec(n: int) -> Seq<char> {
    if n < 0 {
        "-"@ + dec((-n) as nat)
    } else {
        dec(n as nat)
    }
}

/// Decimal text of a number below one thousand, padded with zeros to three digits.
pub open spec fn dec3(n: int) -> Seq<char> {
    seq![digit_char(n / 100), digit_char(n / 10 % 10), digit_char(n % 10)]
}

/// The hexadecimal digit with value `d`, in the asked-for case.
pub open spec fn hex_digit(d: int, upper: bool) -> char {
    if d < 10 {
        (48 + d) as char
    } else if upper {
        (55 + d) as char
    } else {
        (87 + d) as char
    }
}

/// A byte as two hexadecimal digits.
pub open spec fn hex2(byte: u8, upper: bool) -> Seq<char> {
    seq![hex_digit(byte as int / 16, upper), hex_digit(byte as int % 16, upper)]
}

/// A 16-bit word as four hexadecimal digits.
pub open spec fn hex4(word: u16, upper: bool) -> Seq<char> {
    seq![
        hex_digit(word as int / 4096, upper),
        hex_digit(word as int / 256 % 16, upper),
        hex_digit(word as int / 16 % 16, upper),
        hex_digit(word as int % 16, upper),
    ]
}

/// Renders `n` in decimal.
pub fn decimal(n: u64) -> (text: String)
    ensures
        text@ == dec(n as nat),
    decreases n,
{
    let last: u8 = (n % 10) as u8;
    let mut text = if n < 10 { String::new() } else { decimal(n / 10) };
    text.push((48u8 + last) as char);
    text
}

/// Renders `n` in decimal, with a minus sign where it is negative.
pub fn signed_decimal(n: i32) -> (text: String)
    ensures
        text@ == signed_dec(n as int),
{
    if n < 0 {
        let mut text = "-".to_owned();
        let magnitude: i64 = -(n as i64);
        text.append(decimal(magnitude as u64).as_str());
        text
    } else {
        decimal(n as u64)
    }
}

/// Renders a number below one thousand with exactly three digits.
pub fn decimal3(n: u32) -> (text: String)
    requires
        n < 1000,
    ensures
        text@ == dec3(n as int),
{
    let mut text = String::new();
    text.push((48u8 + (n / 100) as u8) as char);
    text.push((48u8 + (n / 10 % 10) as u8) as char);
    text.push((48u8 + (n % 10) as u8) as char);
    assert(text@ =~= dec3(n as int));
    text
}

fn hex_char(d: u8, upper: bool) -> (c: char)
    requires
        d < 16,
    ensures
        c == hex_digit(d as int, upper),
{
    if d < 10 {
        (48u8 + d) as char
    } else if upper {
        (55u8 + d) as char
    } else {
        (87u8 + d) as char
    }
}

/// Renders a byte as two hexadecimal digits.
pub fn hex_byte(byte: u8, upper: bool) -> (text: String)
    ensures
        text@ == hex2(byte, upper),
{
    let mut text = String::new();
    text.push(hex_char(byte / 16, upper));
    text.push(hex_char(byte % 16, upper));
    assert(text@ =~= hex2(byte, upper));
    text
}

/// Renders a 16-bit word as four hexadecimal digits.
pub fn hex_word(word: u16, upper: bool) -> (text: String)
    ensures
        text@ == hex4(word, upper),
{
    let mut text = String::new();
    text.push(hex_char((word / 4096) as u8, upper));
    text.push(hex_char((word / 256 % 16) as u8, upper));
    text.push(hex_char((word / 16 % 16) as u8, upper));
    text.push(hex_char((word % 16) as u8, upper));
    assert(text@ =~= hex4(word, upper));
    text
}

/// Joins two texts.
pub fn join2(a: &str, b: &str) -> (text: String)
    ensures
        text@ == a@ + b@,
{
    let mut text = a.to_owned();
    text.append(b);
    text
}

/// Joins three texts.
pub fn join3(a: &str, b: &str, c: &str) -> (text: String)
    ensures
        text@ == a@ + b@ + c@,
{
    let mut text = join2(a, b);
    text.append(c);
    text
}

/// Joins four texts.
pub fn join4(a: &str, b: &str, c: &str, d: &str) -> (text: String)
    ensures
        text@ == a@ + b@ + c@ + d@,
{
    let mut text = join3(a, b, c);
    text.append(d);
    text
}

/// Joins five texts.
pub fn join5(a: &str, b: &str, c: &str, d: &str, e: &str) -> (text: String)
    ensures
        text@ == a@ + b@ + c@ + d@ + e@,
{
    let mut text = join4(a, b, c, d);
    text.append(e);
    text
}

/// The texts of `parts`, one after the other, with `separator` between neighbours.
pub open spec fn joined(parts: Seq<Seq<char>>, separator: Seq<char>) -> Seq<char>
    decreases parts.len(),
{
    if parts.len() == 0 {
        Seq::empty()
    } else if parts.len() == 1 {
        parts[0]
    } else {
        joined(parts.drop_last(), separator) + separator + parts.last()
    }
}

/// The views of a sequence of strings.
pub open spec fn texts(parts: Seq<String>) -> Seq<Seq<char>> {
    parts.map_values(|part: String| part@)
}

/// Joins the texts of `parts` with `separator` between neighbours.
pub fn join_all(parts: &Vec<String>, separator: &str) -> (text: String)
    ensures
        text@ == joined(texts(parts@), separator@),
{
    let mut text = String::new();
    let mut i: usize = 0;
    assert(texts(parts@).take(0) =~= Seq::empty());
    while i < parts.len()
        invariant
            i <= parts.len(),
            text@ == joined(texts(parts@).take(i as int), separator@),
        decreases parts.len() - i,
    {
        if i > 0 {
            text.append(separator);
        }
        text.append(parts[i].as_str());
        proof {
            let next = texts(parts@).take(i + 1);
            assert(next.drop_last() =~= texts(parts@).take(i as int));
            assert(next.last() == parts@[i as int]@);
            assert(text@ =~= joined(next, separator@));
        }
        i = i + 1;
    }
    assert(texts(parts@).take(parts.len() as int) =~= texts(parts@));
    text
}

/// The characters of a text.
pub fn chars_of(text: &str) -> (chars: Vec<char>)
    ensures
        chars@ == text@,
{
    let mut chars: Vec<char> = Vec::new();
    for c in it: text.chars()
        invariant
            chars@ =~= it.seq().take(it.index() as int),
            it.seq() == text@,
    {
        chars.push(c);
    }
    chars
}

/// The text made of `chars`.
pub fn text_of(chars: &[char]) -> (text: String)
    ensures
        text@ == chars@,
{
    let mut text = String::new();
    let mut i: usize = 0;
    while i < chars.len()
        invariant
            i <= chars.len(),
            text@ =~= chars@.take(i as int),
        decreases chars.len() - i,
    {
        text.push(chars[i]);
        i = i + 1;
    }
    text
}

/// Whether two character sequences are the same.
pub fn same_chars(a: &[char], b: &[char]) -> (same: bool)
    ensures
        same == (a@ == b@),
{
    if a.len() != b.len() {
        return false;
    }
    let mut i: usize = 0;
    while i < a.len()
        invariant
            a.len() == b.len(),
            i <= a.len(),
            forall|k: int| 0 <= k < i ==> a@[k] == b@[k],
        decreases a.len() - i,
    {
        if a[i] != b[i] {
            return false;
        }
        i = i + 1;
    }
    assert(a@ =~= b@);
    true
}

/// Whether two texts are the same.
pub fn same_text(a: &str, b: &str) -> (same: bool)
    ensures
        same == (a@ == b@),
{
    same_chars(chars_of(a).as_slice(), chars_of(b).as_slice())
}

/// The character with ASCII capitals made small.
pub open spec fn ascii_lower(c: char) -> char {
    if 'A' <= c && c <= 'Z' {
        (c as int + 32) as char
    } else {
        c
    }
}

/// The text with ASCII capitals made small.
pub open spec fn lowered(text: Seq<char>) -> Seq<char> {
    text.map_values(|c: char| ascii_lower(c))
}

/// Makes the ASCII capitals of a text small.
pub fn lowercase(text: &str) -> (lower: String)
    ensures
        lower@ == lowered(text@),
{
    let chars = chars_of(text);
    let mut lower = String::new();
    let mut i: usize = 0;
    while i < chars.len()
        invariant
            i <= chars.len(),
            lower@ =~= lowered(chars@.take(i as int)),
        decreases chars.len() - i,
    {
        let c = chars[i];
        if 'A' <= c && c <= 'Z' {
            lower.push(((c as u8) + 32u8) as char);
        } else {
            lower.push(c);
        }
        i = i + 1;
    }
    assert(chars@.take(chars.len() as int) =~= chars@);
    lower
}

/// The character with ASCII small letters made capital.
pub open spec fn ascii_upper(c: char) -> char {
    if 'a' <= c && c <= 'z' {
        (c as int - 32) as char
    } else {
        c
    }
}

/// The text with ASCII small letters made capital.
pub open spec fn uppered(text: Seq<char>) -> Seq<char> {
    text.map_values(|c: char| ascii_upper(c))
}

/// Makes the ASCII small letters of a text capital.
pub fn uppercase(text: &str) -> (upper: String)
    ensures
        upper@ == uppered(text@),
{
    let chars = chars_of(text);
    let mut upper = String::new();
    let mut i: usize = 0;
    while i < chars.len()
        invariant
            i <= chars.len(),
            upper@ =~= uppered(chars@.take(i as int)),
        decreases chars.len() - i,
    {
        let c = chars[i];
        if 'a' <= c && c <= 'z' {
            upper.push(((c as u8) - 32u8) as char);
        } else {
            upper.push(c);
        }
        i = i + 1;
    }
    assert(chars@.take(chars.len() as int) =~= chars@);
    upper
}

/// Whether `needle` stands in `text` starting at `at`.
pub open spec fn stands_at(text: Seq<char>, needle: Seq<char>, at: int) -> bool {
    0 <= at && at + needle.len() <= text.len() && text.subrange(at, at + needle.len()) == needle
}

/// Whether `needle` occurs anywhere in `text`.
pub open spec fn occurs(text: Seq<char>, needle: Seq<char>) -> bool {
    exists|at: int| stands_at(text, needle, at)
}

/// Looks for `needle` at one place of `text`.
fn finds_at(text: &Vec<char>, needle: &Vec<char>, at: usize) -> (found: bool)
    requires
        at <= text.len(),
    ensures
        found == stands_at(text@, needle@, at as int),
{
    if needle.len() > text.len() - at {
        return false;
    }
    let mut i: usize = 0;
    while i < needle.len()
        invariant
            at + needle.len() <= text.len(),
            i <= needle.len(),
            forall|k: int| 0 <= k < i ==> text@[at + k] == needle@[k],
        decreases needle.len() - i,
    {
        if text[at + i] != needle[i] {
            assert(text@.subrange(at as int, at + needle@.len())[i as int] != needle@[i as int]);
            return false;
        }
        i = i + 1;
    }
    assert(text@.subrange(at as int, at + needle@.len()) =~= needle@);
    true
}

/// Whether `needle` occurs anywhere in `text`.
pub fn contains_text(text: &str, needle: &str) -> (found: bool)
    ensures
        found == occurs(text@, needle@),
{
    let chars = chars_of(text);
    let sought = chars_of(needle);
    let mut at: usize = 0;
    while at < chars.len()
        invariant
            chars@ == text@,
            sought@ == needle@,
            at <= chars.len(),
            forall|k: int| 0 <= k < at ==> !stands_at(text@, needle@, k),
        decreases chars.len() - at,
    {
        if finds_at(&chars, &sought, at) {
            return true;
        }
        at = at + 1;
    }
    finds_at(&chars, &sought, at)
}

/// Whether a character has the Unicode property White_Space.
pub open spec fn white_space(c: char) -> bool {
    ||| '\u{9}' <= c && c <= '\u{d}'
    ||| c == '\u{20}'
    ||| c == '\u{85}'
    ||| c == '\u{a0}'
    ||| c == '\u{1680}'
    ||| '\u{2000}' <= c && c <= '\u{200a}'
    ||| c == '\u{2028}'
    ||| c == '\u{2029}'
    ||| c == '\u{202f}'
    ||| c == '\u{205f}'
    ||| c == '\u{3000}'
}

/// Whether a character has the Unicode property White_Space.
pub fn is_white_space(c: char) -> (white: bool)
    ensures
        white == white_space(c),
{
    ('\u{9}' <= c && c <= '\u{d}') || c == '\u{20}' || c == '\u{85}' || c == '\u{a0}' || c == '\u{1680}'
        || ('\u{2000}' <= c && c <= '\u{200a}') || c == '\u{2028}' || c == '\u{2029}' || c == '\u{202f}'
        || c == '\u{205f}' || c == '\u{3000}'
}

/// The text without white space at its start.
pub open spec fn trimmed_start(text: Seq<char>) -> Seq<char>
    decreases text.len(),
{
    if text.len() > 0 && white_space(text[0]) {
        trimmed_start(text.skip(1))
    } else {
        text
    }
}

/// The text without white space at its end.
pub open spec fn trimmed_end(text: Seq<char>) -> Seq<char>
    decreases text.len(),
{
    if text.len() > 0 && white_space(text.last()) {
        trimmed_end(text.drop_last())
    } else {
        text
    }
}

/// The text without white space at either end.
pub open spec fn trimmed(text: Seq<char>) -> Seq<char> {
    trimmed_end(trimmed_start(text))
}

/// Takes white space off both ends of a text.
pub fn trim(text: &str) -> (kept: String)
    ensures
        kept@ == trimmed(text@),
{
    let chars = chars_of(text);
    let mut start: usize = 0;
    assert(chars@.skip(0) =~= chars@);
    while start < chars.len() && is_white_space(chars[start])
        invariant
            start <= chars.len(),
            trimmed_start(chars@) == trimmed_start(chars@.skip(start as int)),
        decreases chars.len() - start,
    {
        assert(chars@.skip(start as int).skip(1) =~= chars@.skip(start + 1));
        start = start + 1;
    }
    let mut end: usize = chars.len();
    let ghost rest = chars@.skip(start as int);
    assert(rest == trimmed_start(chars@));
    assert(chars@.subrange(start as int, end as int) =~= rest);
    while start < end && is_white_space(chars[end - 1])
        invariant
            start <= end <= chars.len(),
            trimmed_end(rest) == trimmed_end(chars@.subrange(start as int, end as int)),
        decreases end - start,
    {
        assert(chars@.subrange(start as int, end as int).drop_last() =~= chars@.subrange(start as int, end - 1));
        end = end - 1;
    }
    text_of(vstd::slice::slice_subrange(chars.as_slice(), start, end))
}

/// Whether `a` comes before `b` in the order of code points.
pub open spec fn text_before(a: Seq<char>, b: Seq<char>) -> bool
    decreases a.len(),
{
    if b.len() == 0 {
        false
    } else if a.len() == 0 {
        true
    } else if a[0] == b[0] {
        text_before(a.skip(1), b.skip(1))
    } else {
        a[0] < b[0]
    }
}

/// Whether `a` comes before `b` in the order of code points.
pub fn comes_before(a: &str, b: &str) -> (before: bool)
    ensures
        before == text_before(a@, b@),
{
    let left = chars_of(a);
    let right = chars_of(b);
    let mut i: usize = 0;
    assert(a@.skip(0) =~= a@);
    assert(b@.skip(0) =~= b@);
    while i < left.len() && i < right.len()
        invariant
            left@ == a@,
            right@ == b@,
            i <= left.len(),
            i <= right.len(),
            text_before(a@, b@) == text_before(a@.skip(i as int), b@.skip(i as int)),
        decreases left.len() - i,
    {
        if left[i] != right[i] {
            return left[i] < right[i];
        }
        assert(a@.skip(i as int).skip(1) =~= a@.skip(i + 1));
        assert(b@.skip(i as int).skip(1) =~= b@.skip(i + 1));
        i = i + 1;
    }
    i < right.len()
}

/// What follows `prefix` in `text`, where `text` starts with it.
pub open spec fn after_prefix(text: Seq<char>, prefix: Seq<char>) -> Option<Seq<char>> {
    if stands_at(text, prefix, 0) {
        Some(text.skip(prefix.len() as int))
    } else {
        None
    }
}

/// Takes `prefix` off the start of `text`, where it stands there.
pub fn strip_prefix(text: &str, prefix: &str) -> (rest: Option<String>)
    ensures
        match rest {
            Some(rest) => after_prefix(text@, prefix@) == Some(rest@),
            None => after_prefix(text@, prefix@) is None,
        },
{
    let chars = chars_of(text);
    let prefix = chars_of(prefix);
    if finds_at(&chars, &prefix, 0) {
        assert(chars@.subrange(prefix@.len() as int, chars@.len() as int) =~= chars@.skip(prefix@.len() as int));
        Some(text_of(vstd::slice::slice_subrange(chars.as_slice(), prefix.len(), chars.len())))
    } else {
        None
    }
}

/// An optional text with the text as a sequence of characters.
pub open spec fn text_option(text: Option<String>) -> Option<Seq<char>> {
    match text {
        Some(text) => Some(text@),
        None => None,
    }
}

/// A copy of an optional text.
pub fn copy_option(text: &Option<String>) -> (copy: Option<String>)
    ensures
        text_option(copy) == text_option(*text),
{
    match text {
        Some(text) => Some(text.clone()),
        None => None,
    }
}

/// Copies of texts.
pub fn copy_texts(texts_in: &Vec<String>) -> (copies: Vec<String>)
    ensures
        texts(copies@) == texts(texts_in@),
{
    let mut copies: Vec<String> = Vec::new();
    let mut i: usize = 0;
    while i < texts_in.len()
        invariant
            i <= texts_in.len(),
            copies@.len() == i,
            forall|k: int| 0 <= k < i ==> #[trigger] copies@[k]@ == texts_in@[k]@,
        decreases texts_in.len() - i,
    {
        copies.push(texts_in[i].clone());
        i = i + 1;
    }
    assert(texts(copies@) =~= texts(texts_in@));
    copies
}

/// Of two different texts exactly one comes before the other, and a text does not come before itself.
pub proof fn text_order_is_total(a: Seq<char>, b: Seq<char>)
    ensures
        text_before(a, b) ==> !text_before(b, a),
        a == b <==> !text_before(a, b) && !text_before(b, a),
    decreases a.len(),
{
    if a.len() > 0 && b.len() > 0 && a[0] == b[0] {
        text_order_is_total(a.skip(1), b.skip(1));
        if a.skip(1) == b.skip(1) {
            assert forall|i: int| 0 <= i < a.len() implies a[i] == b[i] by {
                if i > 0 {
                    assert(a.skip(1)[i - 1] == b.skip(1)[i - 1]);
                }
            }
            assert(a.skip(1).len() == b.skip(1).len());
            assert(a =~= b);
        }
    } else if a.len() == 0 && b.len() == 0 {
        assert(a =~= b);
    }
}

/// A text that does not come before a second, which does not come before a third, does not come before the third.
pub proof fn text_order_is_transitive(a: Seq<char>, b: Seq<char>, c: Seq<char>)
    requires
        !text_before(b, a),
        !text_before(c, b),
    ensures
        !text_before(c, a),
    decreases a.len(),
{
    if a.len() > 0 && b.len() > 0 && c.len() > 0 && a[0] == b[0] && b[0] == c[0] {
        text_order_is_transitive(a.skip(1), b.skip(1), c.skip(1));
    }
}

proof fn trimmed_start_has_no_white_start(text: Seq<char>)
    ensures
        trimmed_start(text).len() > 0 ==> !white_space(trimmed_start(text)[0]),
    decreases text.len(),
{
    if text.len() > 0 && white_space(text[0]) {
        trimmed_start_has_no_white_start(text.skip(1));
    }
}

proof fn trimmed_end_keeps_start(text: Seq<char>)
    ensures
        trimmed_end(text).len() > 0 ==> trimmed_end(text)[0] == text[0] && !white_space(trimmed_end(text).last()),
        trimmed_end(text).len() <= text.len(),
    decreases text.len(),
{
    if text.len() > 0 && white_space(text.last()) {
        trimmed_end_keeps_start(text.drop_last());
    }
}

/// Trimming what is trimmed changes nothing.
pub proof fn trimming_twice_is_trimming(text: Seq<char>)
    ensures
        trimmed(trimmed(text)) == trimmed(text),
{
    trimmed_start_has_no_white_start(text);
    trimmed_end_keeps_start(trimmed_start(text));
}

/// So many spaces.
pub open spec fn spaces(count: int) -> Seq<char> {
    Seq::new(
        if count > 0 {
            count as nat
        } else {
            0
        },
        |i: int| ' ',
    )
}

/// A text with spaces in front of it up to a width.
pub open spec fn right_aligned(text: Seq<char>, width: int) -> Seq<char> {
    spaces(width - text.len()) + text
}

/// A text with spaces behind it up to a width.
pub open spec fn left_aligned(text: Seq<char>, width: int) -> Seq<char> {
    text + spaces(width - text.len())
}

fn make_spaces(width: usize, length: usize) -> (text: String)
    ensures
        text@ == spaces(width - length),
{
    let mut text = String::new();
    let mut i: usize = length;
    while i < width
        invariant
            i <= width || i == length,
            i >= length,
            text@ =~= spaces(i - length),
        decreases width - i,
    {
        text.push(' ');
        i = i + 1;
    }
    text
}

/// Puts spaces in front of a text up to a width.
pub fn align_right(text: &str, width: usize) -> (aligned: String)
    ensures
        aligned@ == right_aligned(text@, width as int),
{
    let length: usize = chars_of(text).len();
    join2(make_spaces(width, length).as_str(), text)
}

/// Puts spaces behind a text up to a width.
pub fn align_left(text: &str, width: usize) -> (aligned: String)
    ensures
        aligned@ == left_aligned(text@, width as int),
{
    let length: usize = chars_of(text).len();
    join2(text, make_spaces(width, length).as_str())
}

/// Capital hexadecimal text of a number, without leading zeros.
pub open spec fn hex_digits(n: int) -> Seq<char>
    decreases n,
{
    if n < 16 {
        seq![hex_digit(n, true)]
    } else {
        hex_digits(n / 16).push(hex_digit(n % 16, true))
    }
}

/// Capital hexadecimal text of a number, with at least four digits.
pub open spec fn hex_at_least4(n: u32) -> Seq<char> {
    if n <= 0xffff {
        hex4(n as u16, true)
    } else {
        hex_digits(n as int)
    }
}

fn render_hex(n: u32) -> (text: String)
    ensures
        text@ == hex_digits(n as int),
    decreases n,
{
    let mut text = if n < 16 { String::new() } else { render_hex(n / 16) };
    text.push(hex_char((n % 16) as u8, true));
    assert(text@ =~= hex_digits(n as int));
    text
}

/// Renders a number in capital hexadecimal, with at least four digits.
pub fn hex_wide(n: u32) -> (text: String)
    ensures
        text@ == hex_at_least4(n),
{
    if n <= 0xffff {
        hex_word(n as u16, true)
    } else {
        render_hex(n)
    }
}

}
