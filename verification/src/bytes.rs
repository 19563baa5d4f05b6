//! Work on bytes: building, cutting and comparing them, and 16-bit words in either byte order.

use vstd::prelude::*;

verus! {

/// Appends `more` to `bytes`.
pub fn append_bytes(bytes: &mut Vec<u8>, more: &[u8])
    ensures
        final(bytes)@ == old(bytes)@ + more@,
{
    let ghost start = bytes@;
    let mut i: usize = 0;
    while i < more.len()
        invariant
            i <= more.len(),
            bytes@ =~= start + more@.take(i as int),
        decreases more.len() - i,
    {
        bytes.push(more[i]);
        i = i + 1;
    }
    assert(more@.take(more@.len() as int) =~= more@);
}

/// `count` times the same byte.
pub fn repeated(byte: u8, count: usize) -> (bytes: Vec<u8>)
    ensures
        bytes@ == Seq::new(count as nat, |i: int| byte),
{
    let mut bytes: Vec<u8> = Vec::new();
    while bytes.len() < count
        invariant
            bytes@.len() <= count,
            forall|i: int| 0 <= i < bytes@.len() ==> bytes@[i] == byte,
        decreases count - bytes.len(),
    {
        bytes.push(byte);
    }
    assert(bytes@ =~= Seq::new(count as nat, |i: int| byte));
    bytes
}

/// The bytes from `start` up to `end`.
pub fn cut(bytes: &[u8], start: usize, end: usize) -> (part: Vec<u8>)
    requires
        start <= end <= bytes@.len(),
    ensures
        part@ == bytes@.subrange(start as int, end as int),
{
    let mut part: Vec<u8> = Vec::new();
    append_bytes(&mut part, vstd::slice::slice_subrange(bytes, start, end));
    assert(part@ =~= bytes@.subrange(start as int, end as int));
    part
}

/// A copy of the bytes.
pub fn copied(bytes: &[u8]) -> (copy: Vec<u8>)
    ensures
        copy@ == bytes@,
{
    let mut copy: Vec<u8> = Vec::new();
    append_bytes(&mut copy, bytes);
    assert(copy@ =~= bytes@);
    copy
}

/// Whether two byte sequences are the same.
pub fn same_bytes(a: &[u8], b: &[u8]) -> (same: bool)
    ensures
        same == (a@ == b@),
{
    if a.len() != b.len() {
        return false;
    }
    let mut i: usize = 0;
    while i < a.len()
        invariant
            a.len() == b.len(),
            i <= a.len(),
            forall|k: int| 0 <= k < i ==> a@[k] == b@[k],
        decreases a.len() - i,
    {
        if a[i] != b[i] {
            return false;
        }
        i = i + 1;
    }
    assert(a@ =~= b@);
    true
}

/// The bytes with `part` written over them from `at` on.
pub open spec fn overwritten(bytes: Seq<u8>, at: int, part: Seq<u8>) -> Seq<u8> {
    Seq::new(
        bytes.len(),
        |i: int|
            if at <= i < at + part.len() {
                part[i - at]
            } else {
                bytes[i]
            },
    )
}

/// Writes `part` over `bytes` from `at` on.
pub fn overwrite(bytes: &mut Vec<u8>, at: usize, part: &[u8])
    requires
        at + part@.len() <= old(bytes)@.len(),
    ensures
        final(bytes)@ == overwritten(old(bytes)@, at as int, part@),
{
    let ghost start = bytes@;
    let mut i: usize = 0;
    while i < part.len()
        invariant
            i <= part.len(),
            at + part@.len() <= bytes.len(),
            bytes@ =~= overwritten(start, at as int, part@.take(i as int)),
        decreases part.len() - i,
    {
        bytes.set(at + i, part[i]);
        i = i + 1;
    }
    assert(part@.take(part@.len() as int) =~= part@);
}

/// The 16-bit word with the given upper and lower byte.
pub open spec fn word_of(high: u8, low: u8) -> u16 {
    (256 * high + low) as u16
}

/// The upper byte of a 16-bit word.
pub open spec fn high_of(word: u16) -> u8 {
    (word / 256) as u8
}

/// The lower byte of a 16-bit word.
pub open spec fn low_of(word: u16) -> u8 {
    (word % 256) as u8
}

/// Puts a 16-bit word together from its upper and lower byte.
pub fn word(high: u8, low: u8) -> (word: u16)
    ensures
        word == word_of(high, low),
{
    256 * (high as u16) + (low as u16)
}

/// The upper byte of a 16-bit word.
pub fn high(word: u16) -> (byte: u8)
    ensures
        byte == high_of(word),
{
    (word / 256) as u8
}

/// The lower byte of a 16-bit word.
pub fn low(word: u16) -> (byte: u8)
    ensures
        byte == low_of(word),
{
    (word % 256) as u8
}

/// A word is its two bytes put together, and the bytes of a word put together are the bytes they were.
pub proof fn word_round_trip(word: u16, high: u8, low: u8)
    ensures
        word_of(high_of(word), low_of(word)) == word,
        high_of(word_of(high, low)) == high,
        low_of(word_of(high, low)) == low,
{
}

}
