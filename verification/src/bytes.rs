//! Little-endian values in byte buffers.

use vstd::prelude::*;

verus! {

/// The 16-bit little-endian value at `at` in `buf`.
pub open spec fn le16(buf: Seq<u8>, at: int) -> u16 {
    (buf[at] + buf[at + 1] * 256) as u16
}

/// The 32-bit little-endian value at `at` in `buf`.
pub open spec fn le32(buf: Seq<u8>, at: int) -> u32 {
    (buf[at] + buf[at + 1] * 256 + buf[at + 2] * 65536 + buf[at + 3] * 16777216) as u32
}

/// The 64-bit little-endian value at `at` in `buf`.
pub open spec fn le64(buf: Seq<u8>, at: int) -> u64 {
    (le32(buf, at) + le32(buf, at + 4) * 4294967296) as u64
}

/// The 16-bit little-endian value at `at` in `buf`.
pub fn read_le16(buf: &[u8], at: usize) -> (res: u16)
    requires
        at + 2 <= buf@.len(),
    ensures
        res == le16(buf@, at as int),
{
    (buf[at] as u16) + (buf[at + 1] as u16) * 256
}

/// The 32-bit little-endian value at `at` in `buf`.
pub fn read_le32(buf: &[u8], at: usize) -> (res: u32)
    requires
        at + 4 <= buf@.len(),
    ensures
        res == le32(buf@, at as int),
{
    (buf[at] as u32) + (buf[at + 1] as u32) * 256 + (buf[at + 2] as u32) * 65536 + (buf[at + 3] as u32) * 16777216
}

/// The 64-bit little-endian value at `at` in `buf`.
pub fn read_le64(buf: &[u8], at: usize) -> (res: u64)
    requires
        at + 8 <= buf@.len(),
    ensures
        res == le64(buf@, at as int),
{
    let len = buf.len();
    assert(at + 8 <= len);
    let lo = read_le32(buf, at);
    let hi = read_le32(buf, at + 4);
    (lo as u64) + (hi as u64) * 4294967296
}

} // verus!
