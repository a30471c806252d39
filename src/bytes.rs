//! Little-endian integer reads at an offset of a byte buffer.
//!
//! The model layout is read in little-endian byte order on every host.
use vstd::prelude::*;
use byteorder::ByteOrder;

verus! {

/// The unsigned integer made of the four bytes at `off`, least significant first.
pub open spec fn u32_le(b: Seq<u8>, off: int) -> u32 {
    (b[off] as int + 256 * (b[off + 1] as int) + 65536 * (b[off + 2] as int)
        + 16777216 * (b[off + 3] as int)) as u32
}

/// The unsigned integer made of the eight bytes at `off`, least significant first.
pub open spec fn u64_le(b: Seq<u8>, off: int) -> u64 {
    (u32_le(b, off) as int + 4294967296 * (u32_le(b, off + 4) as int)) as u64
}

/// The signed integer whose two's complement encoding is the four bytes at `off`.
pub open spec fn i32_le(b: Seq<u8>, off: int) -> i32 {
    u32_le(b, off) as i32
}

/// Relies on byteorder's `LittleEndian::read_u32`: it decodes the first four
/// bytes of the slice it is given, least significant first.
#[verifier::external_body]
pub(crate) fn read_u32(b: &[u8], off: usize) -> (r: u32)
    requires
        off + 4 <= b@.len(),
    ensures
        r == u32_le(b@, off as int),
{
    byteorder::LittleEndian::read_u32(&b[off..])
}

/// Relies on byteorder's `LittleEndian::read_u64`: it decodes the first eight
/// bytes of the slice it is given, least significant first.
#[verifier::external_body]
pub(crate) fn read_u64(b: &[u8], off: usize) -> (r: u64)
    requires
        off + 8 <= b@.len(),
    ensures
        r == u64_le(b@, off as int),
{
    byteorder::LittleEndian::read_u64(&b[off..])
}

/// Reads the signed 32-bit integer stored at `off`.
pub(crate) fn read_i32(b: &[u8], off: usize) -> (r: i32)
    requires
        off + 4 <= b@.len(),
    ensures
        r == i32_le(b@, off as int),
{
    read_u32(b, off) as i32
}

/// Whether the bytes are well-formed UTF-8.
pub uninterp spec fn is_utf8(b: Seq<u8>) -> bool;

/// Relies on `std::str::from_utf8`: it accepts the bytes exactly when they are
/// well-formed UTF-8, which depends on the bytes alone.
#[verifier::external_body]
pub(crate) fn check_utf8(b: &[u8], start: usize, end: usize) -> (r: bool)
    requires
        start <= end <= b@.len(),
    ensures
        r == is_utf8(b@.subrange(start as int, end as int)),
{
    std::str::from_utf8(&b[start..end]).is_ok()
}

} // verus!
