//! Little-endian assembly of register bytes into sample values.

use byteorder::{ByteOrder, LittleEndian};
use vstd::prelude::*;

verus! {

/// The two's-complement 16-bit value whose bytes are `lo`, then `hi`.
pub open spec fn le_i16(lo: u8, hi: u8) -> int {
    let u = lo as int + 0x100 * (hi as int);
    if u >= 0x8000 {
        u - 0x1_0000
    } else {
        u
    }
}

/// The unsigned value whose bytes, least significant first, are `b0` to `b3`.
pub open spec fn le_u32(b0: u8, b1: u8, b2: u8, b3: u8) -> int {
    b0 as int + 0x100 * (b1 as int) + 0x1_0000 * (b2 as int) + 0x100_0000 * (b3 as int)
}

/// Relies on byteorder's `LittleEndian::read_i16`: the first two bytes of the
/// buffer, least significant first, as a two's-complement `i16`.
#[verifier::external_body]
pub(crate) fn read_i16_le(lo: u8, hi: u8) -> (r: i16)
    ensures
        r as int == le_i16(lo, hi),
{
    LittleEndian::read_i16(&[lo, hi])
}

/// Relies on byteorder's `LittleEndian::read_u32`: the first four bytes of the
/// buffer, least significant first, as a `u32`.
#[verifier::external_body]
pub(crate) fn read_u32_le(b0: u8, b1: u8, b2: u8, b3: u8) -> (r: u32)
    ensures
        r as int == le_u32(b0, b1, b2, b3),
{
    LittleEndian::read_u32(&[b0, b1, b2, b3])
}

} // verus!
