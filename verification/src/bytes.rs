//! Little-endian integer fields of the container format, read from an
//! in-memory byte stream.

use vstd::prelude::*;

verus! {

/// The 16-bit little-endian value stored at offset `i` of `d`.
pub open spec fn le16(d: Seq<u8>, i: int) -> u32 {
    (d[i] + d[i + 1] * 0x100) as u32
}

/// The 24-bit little-endian value stored at offset `i` of `d`.
pub open spec fn le24(d: Seq<u8>, i: int) -> u32 {
    (d[i] + d[i + 1] * 0x100 + d[i + 2] * 0x10000) as u32
}

/// The 32-bit little-endian value stored at offset `i` of `d`.
pub open spec fn le32(d: Seq<u8>, i: int) -> u32 {
    (d[i] + d[i + 1] * 0x100 + d[i + 2] * 0x10000 + d[i + 3] * 0x1000000) as u32
}

/// Reads the byte at `pos`.
pub fn byte_at(d: &Vec<u8>, pos: u64) -> (r: u8)
    requires
        pos < d@.len(),
    ensures
        r == d@[pos as int],
{
    let _bound: usize = d.len();
    d[pos as usize]
}

/// Reads a 16-bit little-endian integer at `pos`.
pub fn read_le16(d: &Vec<u8>, pos: u64) -> (r: u32)
    requires
        pos + 2 <= d@.len(),
    ensures
        r == le16(d@, pos as int),
{
    let _bound: usize = d.len();
    let a = d[pos as usize] as u32;
    let b = d[(pos + 1) as usize] as u32;
    a + b * 0x100
}

/// Reads a 24-bit little-endian integer at `pos`.
pub fn read_le24(d: &Vec<u8>, pos: u64) -> (r: u32)
    requires
        pos + 3 <= d@.len(),
    ensures
        r == le24(d@, pos as int),
{
    let _bound: usize = d.len();
    let a = d[pos as usize] as u32;
    let b = d[(pos + 1) as usize] as u32;
    let c = d[(pos + 2) as usize] as u32;
    a + b * 0x100 + c * 0x10000
}

/// Reads a 32-bit little-endian integer at `pos`.
pub fn read_le32(d: &Vec<u8>, pos: u64) -> (r: u32)
    requires
        pos + 4 <= d@.len(),
    ensures
        r == le32(d@, pos as int),
{
    let _bound: usize = d.len();
    let a = d[pos as usize] as u32;
    let b = d[(pos + 1) as usize] as u32;
    let c = d[(pos + 2) as usize] as u32;
    let e = d[(pos + 3) as usize] as u32;
    a + b * 0x100 + c * 0x10000 + e * 0x1000000
}

} // verus!
