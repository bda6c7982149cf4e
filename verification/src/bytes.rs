//! Multi-byte integers inside a byte sequence, in either byte order.

use vstd::prelude::*;

verus! {

/// The order in which the bytes of a multi-byte field are stored.
#[derive(Clone, Copy, Debug, PartialEq, Eq, Structural)]
pub enum ByteOrder {
    /// Least significant byte first (marker `II`).
    LittleEndian,
    /// Most significant byte first (marker `MM`).
    BigEndian,
}

/// The unsigned 16-bit number stored at `pos` and `pos + 1`.
pub open spec fn u16_at(s: Seq<u8>, pos: int, order: ByteOrder) -> int {
    match order {
        ByteOrder::LittleEndian => s[pos] as int + 256 * (s[pos + 1] as int),
        ByteOrder::BigEndian => 256 * (s[pos] as int) + s[pos + 1] as int,
    }
}

/// The unsigned 32-bit number stored at `pos .. pos + 4`.
pub open spec fn u32_at(s: Seq<u8>, pos: int, order: ByteOrder) -> int {
    match order {
        ByteOrder::LittleEndian => u16_at(s, pos, order) + 65536 * u16_at(s, pos + 2, order),
        ByteOrder::BigEndian => 65536 * u16_at(s, pos, order) + u16_at(s, pos + 2, order),
    }
}

/// The value of an 8-bit pattern read as a two's complement number.
pub open spec fn signed8(v: int) -> int {
    if v >= 0x80 { v - 0x100 } else { v }
}

/// The value of a 16-bit pattern read as a two's complement number.
pub open spec fn signed16(v: int) -> int {
    if v >= 0x8000 { v - 0x1_0000 } else { v }
}

/// The value of a 32-bit pattern read as a two's complement number.
pub open spec fn signed32(v: int) -> int {
    if v >= 0x8000_0000 { v - 0x1_0000_0000 } else { v }
}

/// A 16-bit number lies in the range of `u16`.
pub proof fn lemma_u16_at_range(s: Seq<u8>, pos: int, order: ByteOrder)
    ensures
        0 <= u16_at(s, pos, order) <= u16::MAX,
{
}

/// A 32-bit number lies in the range of `u32`.
pub proof fn lemma_u32_at_range(s: Seq<u8>, pos: int, order: ByteOrder)
    ensures
        0 <= u32_at(s, pos, order) <= u32::MAX,
{
}

/// Reads the 16-bit number at `pos`.
pub(crate) fn read_u16(data: &[u8], pos: usize, order: ByteOrder) -> (r: u16)
    requires
        pos + 2 <= data.len(),
    ensures
        r as int == u16_at(data@, pos as int, order),
{
    let a: u16 = data[pos] as u16;
    let b: u16 = data[pos + 1] as u16;
    match order {
        ByteOrder::LittleEndian => a + 256 * b,
        ByteOrder::BigEndian => 256 * a + b,
    }
}

/// Reads the 32-bit number at `pos`.
pub(crate) fn read_u32(data: &[u8], pos: usize, order: ByteOrder) -> (r: u32)
    requires
        pos + 4 <= data.len(),
    ensures
        r as int == u32_at(data@, pos as int, order),
{
    let a: u32 = read_u16(data, pos, order) as u32;
    let b: u32 = read_u16(data, pos + 2, order) as u32;
    match order {
        ByteOrder::LittleEndian => a + 65536 * b,
        ByteOrder::BigEndian => 65536 * a + b,
    }
}

/// The two's complement reading of an 8-bit pattern.
pub(crate) fn to_i8(v: u8) -> (r: i8)
    ensures
        r as int == signed8(v as int),
{
    if v >= 0x80 {
        (v as i16 - 0x100) as i8
    } else {
        v as i8
    }
}

/// The two's complement reading of a 16-bit pattern.
pub(crate) fn to_i16(v: u16) -> (r: i16)
    ensures
        r as int == signed16(v as int),
{
    if v >= 0x8000 {
        (v as i32 - 0x1_0000) as i16
    } else {
        v as i16
    }
}

/// The two's complement reading of a 32-bit pattern.
pub(crate) fn to_i32(v: u32) -> (r: i32)
    ensures
        r as int == signed32(v as int),
{
    if v >= 0x8000_0000 {
        (v as i64 - 0x1_0000_0000) as i32
    } else {
        v as i32
    }
}

} // verus!
