//! Byte-level arithmetic shared by the packet modules.

use vstd::prelude::*;

verus! {

/// The value of a big-endian 16-bit word.
pub open spec fn word(high: u8, low: u8) -> nat {
    (high as nat) * 256 + (low as nat)
}

/// The big-endian 16-bit word that stands at `at` in `data`.
pub open spec fn word_at(data: Seq<u8>, at: int) -> nat {
    word(data[at], data[at + 1])
}

/// `data` with the big-endian 16-bit word `value` written at `at`.
pub open spec fn with_word_at(data: Seq<u8>, at: int, value: nat) -> Seq<u8> {
    data.update(at, (value / 256) as u8).update(at + 1, (value % 256) as u8)
}

/// Reads a big-endian 16-bit word from its two bytes.
pub fn be_word(high: u8, low: u8) -> (value: u16)
    ensures
        value == word(high, low),
{
    (high as u16) * 256 + (low as u16)
}

/// The two bytes of a 16-bit word, the more significant one first.
pub fn word_bytes(value: u16) -> (bytes: (u8, u8))
    ensures
        bytes.0 == value / 256,
        bytes.1 == value % 256,
        word(bytes.0, bytes.1) == value,
{
    ((value / 256) as u8, (value % 256) as u8)
}

/// Writes a big-endian 16-bit word into `data` at `at`.
pub fn put_word(data: &mut [u8], at: usize, value: u16)
    requires
        at + 1 < old(data)@.len(),
    ensures
        final(data)@ == with_word_at(old(data)@, at as int, value as nat),
{
    let bytes = word_bytes(value);
    data[at] = bytes.0;
    data[at + 1] = bytes.1;
}

/// The upper four bits of a byte.
pub fn high_nibble(byte: u8) -> (value: u8)
    ensures
        value == byte / 16,
{
    assert(byte >> 4 == byte / 16) by (bit_vector);
    byte >> 4
}

/// The lower four bits of a byte.
pub fn low_nibble(byte: u8) -> (value: u8)
    ensures
        value == byte % 16,
{
    assert(byte & 0x0f == byte % 16) by (bit_vector);
    byte & 0x0f
}

/// A word written into a sequence is read back, and every other byte keeps its value.
pub proof fn lemma_word_written(data: Seq<u8>, at: int, value: nat)
    requires
        0 <= at,
        at + 1 < data.len(),
        value < 65536,
    ensures
        with_word_at(data, at, value).len() == data.len(),
        word_at(with_word_at(data, at, value), at) == value,
        forall|i: int|
            0 <= i < data.len() && i != at && i != at + 1 ==> with_word_at(data, at, value)[i]
                == data[i],
{
}

/// Words are big-endian: the first byte counts 256 times, and a word is written as the two bytes
/// that it is read from.
pub proof fn law_words_are_big_endian(data: Seq<u8>, at: int, high: u8, low: u8)
    requires
        0 <= at,
        at + 1 < data.len(),
    ensures
        word_at(data, at) == 256 * data[at] + data[at + 1],
        with_word_at(data, at, (256 * high + low) as nat) == data.update(at, high).update(
            at + 1,
            low,
        ),
{
    assert((256 * high + low) / 256 == high);
    assert((256 * high + low) % 256 == low);
}

} // verus!
