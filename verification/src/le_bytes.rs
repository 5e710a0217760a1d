//! Little-endian byte order: the one rule by which output words are written
//! into a buffer and by which integers are read back from it.

use vstd::prelude::*;

verus! {

/// The eight bytes of `word`, least significant first.
pub open spec fn spec_u64_to_le_bytes(word: u64) -> Seq<u8> {
    seq![
        (word % 0x100) as u8,
        (word / 0x100 % 0x100) as u8,
        (word / 0x1_0000 % 0x100) as u8,
        (word / 0x100_0000 % 0x100) as u8,
        (word / 0x1_0000_0000 % 0x100) as u8,
        (word / 0x100_0000_0000 % 0x100) as u8,
        (word / 0x1_0000_0000_0000 % 0x100) as u8,
        (word / 0x100_0000_0000_0000 % 0x100) as u8,
    ]
}

/// The four bytes of `word`, least significant first.
pub open spec fn spec_u32_to_le_bytes(word: u32) -> Seq<u8> {
    seq![
        (word % 0x100) as u8,
        (word / 0x100 % 0x100) as u8,
        (word / 0x1_0000 % 0x100) as u8,
        (word / 0x100_0000 % 0x100) as u8,
    ]
}

/// The integer whose little-endian bytes are the first eight of `bytes`.
pub open spec fn spec_u64_from_le_bytes(bytes: Seq<u8>) -> u64
    recommends
        bytes.len() == 8,
{
    (bytes[0] + 0x100 * bytes[1] + 0x1_0000 * bytes[2] + 0x100_0000 * bytes[3] + 0x1_0000_0000
        * bytes[4] + 0x100_0000_0000 * bytes[5] + 0x1_0000_0000_0000 * bytes[6]
        + 0x100_0000_0000_0000 * bytes[7]) as u64
}

/// The integer whose little-endian bytes are the first four of `bytes`.
pub open spec fn spec_u32_from_le_bytes(bytes: Seq<u8>) -> u32
    recommends
        bytes.len() == 4,
{
    (bytes[0] + 0x100 * bytes[1] + 0x1_0000 * bytes[2] + 0x100_0000 * bytes[3]) as u32
}

/// Writes `word` out as eight bytes, least significant first.
pub fn u64_to_le_bytes(word: u64) -> (bytes: [u8; 8])
    ensures
        bytes@ == spec_u64_to_le_bytes(word),
{
    let bytes: [u8; 8] = [
        (word % 0x100) as u8,
        (word / 0x100 % 0x100) as u8,
        (word / 0x1_0000 % 0x100) as u8,
        (word / 0x100_0000 % 0x100) as u8,
        (word / 0x1_0000_0000 % 0x100) as u8,
        (word / 0x100_0000_0000 % 0x100) as u8,
        (word / 0x1_0000_0000_0000 % 0x100) as u8,
        (word / 0x100_0000_0000_0000 % 0x100) as u8,
    ];
    assert(bytes@ =~= spec_u64_to_le_bytes(word));
    bytes
}

/// Reads eight bytes, least significant first, as one integer.
pub fn u64_from_le_bytes(bytes: [u8; 8]) -> (word: u64)
    ensures
        word == spec_u64_from_le_bytes(bytes@),
{
    bytes[0] as u64 + 0x100 * (bytes[1] as u64) + 0x1_0000 * (bytes[2] as u64) + 0x100_0000 * (
    bytes[3] as u64) + 0x1_0000_0000 * (bytes[4] as u64) + 0x100_0000_0000 * (bytes[5] as u64)
        + 0x1_0000_0000_0000 * (bytes[6] as u64) + 0x100_0000_0000_0000 * (bytes[7] as u64)
}

/// Reads four bytes, least significant first, as one integer.
pub fn u32_from_le_bytes(bytes: [u8; 4]) -> (word: u32)
    ensures
        word == spec_u32_from_le_bytes(bytes@),
{
    bytes[0] as u32 + 0x100 * (bytes[1] as u32) + 0x1_0000 * (bytes[2] as u32) + 0x100_0000 * (
    bytes[3] as u32)
}

/// A 64-bit word is the sum of its bytes, each scaled by its place.
proof fn lemma_u64_digits(word: u64)
    ensures
        word == word % 0x100 + 0x100 * (word / 0x100 % 0x100) + 0x1_0000 * (word / 0x1_0000
            % 0x100) + 0x100_0000 * (word / 0x100_0000 % 0x100) + 0x1_0000_0000 * (word
            / 0x1_0000_0000 % 0x100) + 0x100_0000_0000 * (word / 0x100_0000_0000 % 0x100)
            + 0x1_0000_0000_0000 * (word / 0x1_0000_0000_0000 % 0x100) + 0x100_0000_0000_0000 * (
        word / 0x100_0000_0000_0000 % 0x100),
{
    let w1 = word / 0x100;
    let w2 = word / 0x1_0000;
    let w3 = word / 0x100_0000;
    let w4 = word / 0x1_0000_0000;
    let w5 = word / 0x100_0000_0000;
    let w6 = word / 0x1_0000_0000_0000;
    let w7 = word / 0x100_0000_0000_0000;
    assert(word == word % 0x100 + 0x100 * w1);
    assert(w2 == w1 / 0x100 && w1 == w1 % 0x100 + 0x100 * w2);
    assert(w3 == w2 / 0x100 && w2 == w2 % 0x100 + 0x100 * w3);
    assert(w4 == w3 / 0x100 && w3 == w3 % 0x100 + 0x100 * w4);
    assert(w5 == w4 / 0x100 && w4 == w4 % 0x100 + 0x100 * w5);
    assert(w6 == w5 / 0x100 && w5 == w5 % 0x100 + 0x100 * w6);
    assert(w7 == w6 / 0x100 && w6 == w6 % 0x100 + 0x100 * w7);
    assert(w7 == w7 % 0x100);
}

/// Eight bytes, each scaled by its place, sum to a word that has them as its
/// bytes.
proof fn lemma_u64_of_digits(
    b0: u8,
    b1: u8,
    b2: u8,
    b3: u8,
    b4: u8,
    b5: u8,
    b6: u8,
    b7: u8,
) -> (word: u64)
    ensures
        word == b0 + 0x100 * b1 + 0x1_0000 * b2 + 0x100_0000 * b3 + 0x1_0000_0000 * b4
            + 0x100_0000_0000 * b5 + 0x1_0000_0000_0000 * b6 + 0x100_0000_0000_0000 * b7,
        word % 0x100 == b0,
        word / 0x100 % 0x100 == b1,
        word / 0x1_0000 % 0x100 == b2,
        word / 0x100_0000 % 0x100 == b3,
        word / 0x1_0000_0000 % 0x100 == b4,
        word / 0x100_0000_0000 % 0x100 == b5,
        word / 0x1_0000_0000_0000 % 0x100 == b6,
        word / 0x100_0000_0000_0000 % 0x100 == b7,
{
    let w7: int = b7 as int;
    let w6: int = b6 + 0x100 * w7;
    let w5: int = b5 + 0x100 * w6;
    let w4: int = b4 + 0x100 * w5;
    let w3: int = b3 + 0x100 * w4;
    let w2: int = b2 + 0x100 * w3;
    let w1: int = b1 + 0x100 * w2;
    let w0: int = b0 + 0x100 * w1;
    assert(w0 / 0x100 == w1 && w0 % 0x100 == b0);
    assert(w1 / 0x100 == w2 && w1 % 0x100 == b1);
    assert(w2 / 0x100 == w3 && w2 % 0x100 == b2);
    assert(w3 / 0x100 == w4 && w3 % 0x100 == b3);
    assert(w4 / 0x100 == w5 && w4 % 0x100 == b4);
    assert(w5 / 0x100 == w6 && w5 % 0x100 == b5);
    assert(w6 / 0x100 == w7 && w6 % 0x100 == b6);
    assert(w0 / 0x1_0000 == w2);
    assert(w0 / 0x100_0000 == w3);
    assert(w0 / 0x1_0000_0000 == w4);
    assert(w0 / 0x100_0000_0000 == w5);
    assert(w0 / 0x1_0000_0000_0000 == w6);
    assert(w0 / 0x100_0000_0000_0000 == w7);
    w0 as u64
}

/// Writing an integer out and reading the bytes back gives the integer again.
pub proof fn lemma_u64_le_round_trip(word: u64)
    ensures
        spec_u64_to_le_bytes(word).len() == 8,
        spec_u64_from_le_bytes(spec_u64_to_le_bytes(word)) == word,
{
    lemma_u64_digits(word);
}

/// Reading eight bytes and writing the integer out gives the bytes again.
pub proof fn lemma_u64_le_bytes_round_trip(bytes: Seq<u8>)
    requires
        bytes.len() == 8,
    ensures
        spec_u64_to_le_bytes(spec_u64_from_le_bytes(bytes)) == bytes,
{
    let word = lemma_u64_of_digits(
        bytes[0],
        bytes[1],
        bytes[2],
        bytes[3],
        bytes[4],
        bytes[5],
        bytes[6],
        bytes[7],
    );
    assert(spec_u64_to_le_bytes(word) =~= bytes);
}

/// A 32-bit word is the sum of its bytes, each scaled by its place.
proof fn lemma_u32_digits(word: u32)
    ensures
        word == word % 0x100 + 0x100 * (word / 0x100 % 0x100) + 0x1_0000 * (word / 0x1_0000
            % 0x100) + 0x100_0000 * (word / 0x100_0000 % 0x100),
{
    let w1 = word / 0x100;
    let w2 = word / 0x1_0000;
    let w3 = word / 0x100_0000;
    assert(word == word % 0x100 + 0x100 * w1);
    assert(w2 == w1 / 0x100 && w1 == w1 % 0x100 + 0x100 * w2);
    assert(w3 == w2 / 0x100 && w2 == w2 % 0x100 + 0x100 * w3);
    assert(w3 == w3 % 0x100);
}

/// Four bytes, each scaled by its place, sum to a word that has them as its
/// bytes.
proof fn lemma_u32_of_digits(b0: u8, b1: u8, b2: u8, b3: u8) -> (word: u32)
    ensures
        word == b0 + 0x100 * b1 + 0x1_0000 * b2 + 0x100_0000 * b3,
        word % 0x100 == b0,
        word / 0x100 % 0x100 == b1,
        word / 0x1_0000 % 0x100 == b2,
        word / 0x100_0000 % 0x100 == b3,
{
    let w3: int = b3 as int;
    let w2: int = b2 + 0x100 * w3;
    let w1: int = b1 + 0x100 * w2;
    let w0: int = b0 + 0x100 * w1;
    assert(w0 / 0x100 == w1 && w0 % 0x100 == b0);
    assert(w1 / 0x100 == w2 && w1 % 0x100 == b1);
    assert(w2 / 0x100 == w3 && w2 % 0x100 == b2);
    assert(w0 / 0x1_0000 == w2);
    assert(w0 / 0x100_0000 == w3);
    w0 as u32
}

/// Writing an integer out and reading the bytes back gives the integer again.
pub proof fn lemma_u32_le_round_trip(word: u32)
    ensures
        spec_u32_to_le_bytes(word).len() == 4,
        spec_u32_from_le_bytes(spec_u32_to_le_bytes(word)) == word,
{
    lemma_u32_digits(word);
}

/// Reading four bytes and writing the integer out gives the bytes again.
pub proof fn lemma_u32_le_bytes_round_trip(bytes: Seq<u8>)
    requires
        bytes.len() == 4,
    ensures
        spec_u32_to_le_bytes(spec_u32_from_le_bytes(bytes)) == bytes,
{
    let word = lemma_u32_of_digits(bytes[0], bytes[1], bytes[2], bytes[3]);
    assert(spec_u32_to_le_bytes(word) =~= bytes);
}

/// The first four bytes of a 64-bit word are the bytes of its low 32 bits.
pub proof fn lemma_u64_le_low_half(word: u64)
    ensures
        spec_u64_to_le_bytes(word).subrange(0, 4) == spec_u32_to_le_bytes(
            (word % 0x1_0000_0000) as u32,
        ),
        spec_u32_from_le_bytes(spec_u64_to_le_bytes(word).subrange(0, 4)) == word % 0x1_0000_0000,
{
    let low = word % 0x1_0000_0000;
    assert(low % 0x100 == word % 0x100 && low / 0x100 % 0x100 == word / 0x100 % 0x100 && low
        / 0x1_0000 % 0x100 == word / 0x1_0000 % 0x100 && low / 0x100_0000 % 0x100 == word
        / 0x100_0000 % 0x100) by (bit_vector)
        requires
            low == word % 0x1_0000_0000,
    ;
    assert(spec_u64_to_le_bytes(word).subrange(0, 4) =~= spec_u32_to_le_bytes(low as u32));
    lemma_u32_le_round_trip(low as u32);
}

} // verus!
