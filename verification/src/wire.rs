//! Reading big-endian integers out of byte sequences.

use vstd::prelude::*;

verus! {

/// The number that a high byte and a low byte make together.
pub open spec fn word16(hi: u8, lo: u8) -> int {
    hi * 256 + lo
}

/// The big-endian 16-bit value of the two bytes at `i`.
pub open spec fn be16(s: Seq<u8>, i: int) -> u16 {
    (s[i] * 256 + s[i + 1]) as u16
}

/// The big-endian 32-bit value of the four bytes at `i`.
pub open spec fn be32(s: Seq<u8>, i: int) -> u32 {
    (s[i] * 16777216 + s[i + 1] * 65536 + s[i + 2] * 256 + s[i + 3]) as u32
}

/// The little-endian 32-bit value of the four bytes at `i`.
pub open spec fn le32(s: Seq<u8>, i: int) -> u32 {
    (s[i + 3] * 16777216 + s[i + 2] * 65536 + s[i + 1] * 256 + s[i]) as u32
}

/// Reads the big-endian 16-bit value at `i`.
pub fn read_be16(bytes: &[u8], i: usize) -> (v: u16)
    requires
        i + 2 <= bytes@.len(),
    ensures
        v == be16(bytes@, i as int),
{
    (bytes[i] as u16) * 256 + bytes[i + 1] as u16
}

/// Reads the big-endian 32-bit value at `i`.
pub fn read_be32(bytes: &[u8], i: usize) -> (v: u32)
    requires
        i + 4 <= bytes@.len(),
    ensures
        v == be32(bytes@, i as int),
{
    (bytes[i] as u32) * 16777216 + (bytes[i + 1] as u32) * 65536 + (bytes[i + 2] as u32) * 256
        + bytes[i + 3] as u32
}

/// Reads the little-endian 32-bit value at `i`.
pub fn read_le32(bytes: &[u8], i: usize) -> (v: u32)
    requires
        i + 4 <= bytes@.len(),
    ensures
        v == le32(bytes@, i as int),
{
    let _len = bytes.len();
    (bytes[i + 3] as u32) * 16777216 + (bytes[i + 2] as u32) * 65536 + (bytes[i + 1] as u32)
        * 256 + bytes[i] as u32
}

/// Copies the 6 bytes starting at `i` into an array.
pub fn read_array6(bytes: &[u8], i: usize) -> (a: [u8; 6])
    requires
        i + 6 <= bytes@.len(),
    ensures
        a@ == bytes@.subrange(i as int, i + 6),
{
    let a = [bytes[i], bytes[i + 1], bytes[i + 2], bytes[i + 3], bytes[i + 4], bytes[i + 5]];
    assert(a@ =~= bytes@.subrange(i as int, i + 6));
    a
}

/// Copies the 16 bytes starting at `i` into an array.
pub fn read_array16(bytes: &[u8], i: usize) -> (a: [u8; 16])
    requires
        i + 16 <= bytes@.len(),
    ensures
        a@ == bytes@.subrange(i as int, i + 16),
{
    let a = [
        bytes[i],
        bytes[i + 1],
        bytes[i + 2],
        bytes[i + 3],
        bytes[i + 4],
        bytes[i + 5],
        bytes[i + 6],
        bytes[i + 7],
        bytes[i + 8],
        bytes[i + 9],
        bytes[i + 10],
        bytes[i + 11],
        bytes[i + 12],
        bytes[i + 13],
        bytes[i + 14],
        bytes[i + 15],
    ];
    assert(a@ =~= bytes@.subrange(i as int, i + 16));
    a
}

} // verus!
