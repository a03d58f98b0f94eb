//! Little-endian integer reads from byte buffers.
//!
//! PostgreSQL stores on-disk integers in the server's byte order; the files
//! read here come from little-endian servers (x86-64, aarch64).

use vstd::prelude::*;

verus! {

/// The unsigned value of the two bytes of `s` at `i`, little-endian.
pub open spec fn le16(s: Seq<u8>, i: int) -> int {
    s[i] + 256 * s[i + 1]
}

/// The unsigned value of the four bytes of `s` at `i`, little-endian.
pub open spec fn le32(s: Seq<u8>, i: int) -> int {
    le16(s, i) + 65536 * le16(s, i + 2)
}

/// The unsigned value of the eight bytes of `s` at `i`, little-endian.
pub open spec fn le64(s: Seq<u8>, i: int) -> int {
    le32(s, i) + 4294967296 * le32(s, i + 4)
}

/// Read a `u16` stored little-endian at `data[i..i + 2]`.
pub fn read_u16(data: &[u8], i: usize) -> (r: u16)
    requires
        i + 2 <= data@.len(),
    ensures
        r == le16(data@, i as int),
{
    data[i] as u16 + (data[i + 1] as u16) * 256
}

/// Read a `u32` stored little-endian at `data[i..i + 4]`.
pub fn read_u32(data: &[u8], i: usize) -> (r: u32)
    requires
        i + 4 <= data@.len(),
    ensures
        r == le32(data@, i as int),
{
    let len = data.len();
    assert(i + 2 <= len);
    let lo = read_u16(data, i);
    let hi = read_u16(data, i + 2);
    lo as u32 + (hi as u32) * 65536
}

/// Read a `u64` stored little-endian at `data[i..i + 8]`.
pub fn read_u64(data: &[u8], i: usize) -> (r: u64)
    requires
        i + 8 <= data@.len(),
    ensures
        r == le64(data@, i as int),
{
    let len = data.len();
    assert(i + 4 <= len);
    let lo = read_u32(data, i);
    let hi = read_u32(data, i + 4);
    lo as u64 + (hi as u64) * 4294967296
}

/// Read an `i16` stored little-endian (two's complement) at `data[i..i + 2]`.
pub fn read_i16(data: &[u8], i: usize) -> (r: i16)
    requires
        i + 2 <= data@.len(),
    ensures
        r == le16(data@, i as int) as i16,
{
    read_u16(data, i) as i16
}

/// Read an `i32` stored little-endian (two's complement) at `data[i..i + 4]`.
pub fn read_i32(data: &[u8], i: usize) -> (r: i32)
    requires
        i + 4 <= data@.len(),
    ensures
        r == le32(data@, i as int) as i32,
{
    read_u32(data, i) as i32
}

/// Read an `i64` stored little-endian (two's complement) at `data[i..i + 8]`.
pub fn read_i64(data: &[u8], i: usize) -> (r: i64)
    requires
        i + 8 <= data@.len(),
    ensures
        r == le64(data@, i as int) as i64,
{
    read_u64(data, i) as i64
}

} // verus!
