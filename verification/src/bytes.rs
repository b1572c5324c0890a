//! Little-endian readers over byte spans.

use vstd::prelude::*;

verus! {

/// The 16-bit little-endian value stored at offset `i` of `b`.
pub open spec fn le16_at(b: Seq<u8>, i: int) -> u16
    recommends
        0 <= i,
        i + 2 <= b.len(),
{
    (b[i] as u16) | (b[i + 1] as u16) << 8
}

/// The 32-bit little-endian value stored at offset `i` of `b`.
pub open spec fn le32_at(b: Seq<u8>, i: int) -> u32
    recommends
        0 <= i,
        i + 4 <= b.len(),
{
    (b[i] as u32) | (b[i + 1] as u32) << 8 | (b[i + 2] as u32) << 16 | (b[i + 3] as u32) << 24
}

/// The 64-bit little-endian value stored at offset `i` of `b`.
pub open spec fn le64_at(b: Seq<u8>, i: int) -> u64
    recommends
        0 <= i,
        i + 8 <= b.len(),
{
    (le32_at(b, i) as u64) | (le32_at(b, i + 4) as u64) << 32
}

/// Reads the 16-bit little-endian value at offset `i`.
pub fn read_le16(b: &[u8], i: usize) -> (r: u16)
    requires
        i + 2 <= b@.len(),
    ensures
        r == le16_at(b@, i as int),
{
    (b[i] as u16) | (b[i + 1] as u16) << 8u16
}

/// Reads the 32-bit little-endian value at offset `i`.
pub fn read_le32(b: &[u8], i: usize) -> (r: u32)
    requires
        i + 4 <= b@.len(),
    ensures
        r == le32_at(b@, i as int),
{
    (b[i] as u32) | (b[i + 1] as u32) << 8u32 | (b[i + 2] as u32) << 16u32 | (b[i + 3] as u32)
        << 24u32
}

/// Reads the 64-bit little-endian value at offset `i`.
pub fn read_le64(b: &[u8], i: usize) -> (r: u64)
    requires
        i + 8 <= b@.len(),
    ensures
        r == le64_at(b@, i as int),
{
    let _n: usize = b.len();
    let lo = read_le32(b, i);
    let hi = read_le32(b, i + 4);
    (lo as u64) | (hi as u64) << 32u64
}

} // verus!
