//! Decoding the value of a directory entry.

use vstd::prelude::*;
use crate::bytes::{ByteOrder, u16_at, u32_at, signed8, signed16, signed32, read_u16, read_u32,
    to_i8, to_i16, to_i32};
use crate::tag::{DataType, DirectoryEntry, TagValue, FIELD_LEN, unit_size, decode, value_of};

verus! {

/// A 16-bit number inside a part of a sequence is the number at the same
/// place of the whole.
proof fn lemma_u16_at_subrange(s: Seq<u8>, a: int, b: int, pos: int, order: ByteOrder)
    requires
        0 <= a,
        0 <= pos,
        a + pos + 2 <= b <= s.len(),
    ensures
        u16_at(s.subrange(a, b), pos, order) == u16_at(s, a + pos, order),
{
}

/// A 32-bit number inside a part of a sequence is the number at the same
/// place of the whole.
proof fn lemma_u32_at_subrange(s: Seq<u8>, a: int, b: int, pos: int, order: ByteOrder)
    requires
        0 <= a,
        0 <= pos,
        a + pos + 4 <= b <= s.len(),
    ensures
        u32_at(s.subrange(a, b), pos, order) == u32_at(s, a + pos, order),
{
    lemma_u16_at_subrange(s, a, b, pos, order);
    lemma_u16_at_subrange(s, a, b, pos + 2, order);
}

/// Copies `n` bytes that start at `start`.
fn copy_bytes(src: &[u8], start: usize, n: usize) -> (out: Vec<u8>)
    requires
        start + n <= src.len(),
    ensures
        out@ == src@.subrange(start as int, start + n),
{
    let mut out: Vec<u8> = Vec::new();
    let mut i: usize = 0;
    while i < n
        invariant
            start + n <= src.len(),
            i <= n,
            out@ == src@.subrange(start as int, start + i),
        decreases n - i,
    {
        out.push(src[start + i]);
        i = i + 1;
    }
    out
}

/// Reads `n` signed 8-bit numbers that start at `start`.
fn read_i8s(src: &[u8], start: usize, n: usize) -> (out: Vec<i8>)
    requires
        start + n <= src.len(),
    ensures
        out@.len() == n,
        forall|i: int| 0 <= i < n ==> out@[i] as int == signed8(src@[start + i] as int),
{
    let mut out: Vec<i8> = Vec::new();
    let mut i: usize = 0;
    while i < n
        invariant
            start + n <= src.len(),
            i <= n,
            out@.len() == i,
            forall|j: int| 0 <= j < i ==> out@[j] as int == signed8(src@[start + j] as int),
        decreases n - i,
    {
        out.push(to_i8(src[start + i]));
        i = i + 1;
    }
    out
}

/// Reads `n` unsigned 16-bit numbers that start at `start`.
fn read_u16s(src: &[u8], order: ByteOrder, start: usize, n: usize) -> (out: Vec<u16>)
    requires
        start + 2 * n <= src.len(),
    ensures
        out@.len() == n,
        forall|i: int| 0 <= i < n ==> out@[i] as int == u16_at(src@, start + 2 * i, order),
{
    let mut out: Vec<u16> = Vec::new();
    let mut i: usize = 0;
    while i < n
        invariant
            start + 2 * n <= src.len(),
            i <= n,
            out@.len() == i,
            forall|j: int| 0 <= j < i ==> out@[j] as int == u16_at(src@, start + 2 * j, order),
        decreases n - i,
    {
        out.push(read_u16(src, start + 2 * i, order));
        i = i + 1;
    }
    out
}

/// Reads `n` signed 16-bit numbers that start at `start`.
fn read_i16s(src: &[u8], order: ByteOrder, start: usize, n: usize) -> (out: Vec<i16>)
    requires
        start + 2 * n <= src.len(),
    ensures
        out@.len() == n,
        forall|i: int|
            0 <= i < n ==> out@[i] as int == signed16(u16_at(src@, start + 2 * i, order)),
{
    let mut out: Vec<i16> = Vec::new();
    let mut i: usize = 0;
    while i < n
        invariant
            start + 2 * n <= src.len(),
            i <= n,
            out@.len() == i,
            forall|j: int|
                0 <= j < i ==> out@[j] as int == signed16(u16_at(src@, start + 2 * j, order)),
        decreases n - i,
    {
        out.push(to_i16(read_u16(src, start + 2 * i, order)));
        i = i + 1;
    }
    out
}

/// Reads `n` unsigned 32-bit numbers that start at `start`.
fn read_u32s(src: &[u8], order: ByteOrder, start: usize, n: usize) -> (out: Vec<u32>)
    requires
        start + 4 * n <= src.len(),
    ensures
        out@.len() == n,
        forall|i: int| 0 <= i < n ==> out@[i] as int == u32_at(src@, start + 4 * i, order),
{
    let mut out: Vec<u32> = Vec::new();
    let mut i: usize = 0;
    while i < n
        invariant
            start + 4 * n <= src.len(),
            i <= n,
            out@.len() == i,
            forall|j: int| 0 <= j < i ==> out@[j] as int == u32_at(src@, start + 4 * j, order),
        decreases n - i,
    {
        out.push(read_u32(src, start + 4 * i, order));
        i = i + 1;
    }
    out
}

/// Reads `n` signed 32-bit numbers that start at `start`.
fn read_i32s(src: &[u8], order: ByteOrder, start: usize, n: usize) -> (out: Vec<i32>)
    requires
        start + 4 * n <= src.len(),
    ensures
        out@.len() == n,
        forall|i: int|
            0 <= i < n ==> out@[i] as int == signed32(u32_at(src@, start + 4 * i, order)),
{
    let mut out: Vec<i32> = Vec::new();
    let mut i: usize = 0;
    while i < n
        invariant
            start + 4 * n <= src.len(),
            i <= n,
            out@.len() == i,
            forall|j: int|
                0 <= j < i ==> out@[j] as int == signed32(u32_at(src@, start + 4 * j, order)),
        decreases n - i,
    {
        out.push(to_i32(read_u32(src, start + 4 * i, order)));
        i = i + 1;
    }
    out
}

/// Reads `n` pairs of unsigned 32-bit numbers that start at `start`.
fn read_rationals(src: &[u8], order: ByteOrder, start: usize, n: usize) -> (out: Vec<(u32, u32)>)
    requires
        start + 8 * n <= src.len(),
    ensures
        out@.len() == n,
        forall|i: int|
            0 <= i < n ==> out@[i].0 as int == u32_at(src@, start + 8 * i, order)
                && out@[i].1 as int == u32_at(src@, start + 8 * i + 4, order),
{
    let mut out: Vec<(u32, u32)> = Vec::new();
    let mut i: usize = 0;
    while i < n
        invariant
            start + 8 * n <= src.len(),
            i <= n,
            out@.len() == i,
            forall|j: int|
                0 <= j < i ==> out@[j].0 as int == u32_at(src@, start + 8 * j, order)
                    && out@[j].1 as int == u32_at(src@, start + 8 * j + 4, order),
        decreases n - i,
    {
        let num: u32 = read_u32(src, start + 8 * i, order);
        let den: u32 = read_u32(src, start + 8 * i + 4, order);
        out.push((num, den));
        i = i + 1;
    }
    out
}

/// Reads `n` pairs of signed 32-bit numbers that start at `start`.
fn read_srationals(src: &[u8], order: ByteOrder, start: usize, n: usize) -> (out: Vec<
    (i32, i32),
>)
    requires
        start + 8 * n <= src.len(),
    ensures
        out@.len() == n,
        forall|i: int|
            0 <= i < n ==> out@[i].0 as int == signed32(u32_at(src@, start + 8 * i, order))
                && out@[i].1 as int == signed32(u32_at(src@, start + 8 * i + 4, order)),
{
    let mut out: Vec<(i32, i32)> = Vec::new();
    let mut i: usize = 0;
    while i < n
        invariant
            start + 8 * n <= src.len(),
            i <= n,
            out@.len() == i,
            forall|j: int|
                0 <= j < i ==> out@[j].0 as int == signed32(u32_at(src@, start + 8 * j, order))
                    && out@[j].1 as int == signed32(
                    u32_at(src@, start + 8 * j + 4, order),
                ),
        decreases n - i,
    {
        let num: i32 = to_i32(read_u32(src, start + 8 * i, order));
        let den: i32 = to_i32(read_u32(src, start + 8 * i + 4, order));
        out.push((num, den));
        i = i + 1;
    }
    out
}

/// Decodes `count` values of type `t` that start at `start`.
fn decode_at(t: DataType, order: ByteOrder, src: &[u8], start: usize, count: usize) -> (v:
    TagValue)
    requires
        start + count * unit_size(t) <= src.len(),
    ensures
        v@ == decode(
            t,
            order,
            src@.subrange(start as int, start + count * unit_size(t)),
            count as nat,
        ),
{
    let ghost end: int = start + count * unit_size(t);
    let ghost bytes = src@.subrange(start as int, end);
    match t {
        DataType::Byte => TagValue::Byte(copy_bytes(src, start, count)),
        DataType::Ascii => TagValue::Ascii(copy_bytes(src, start, count)),
        DataType::Undefined => TagValue::Undefined(copy_bytes(src, start, count)),
        DataType::Unknown => TagValue::Unknown(copy_bytes(src, start, 0)),
        DataType::SByte => {
            let out = read_i8s(src, start, count);
            assert(out@ =~= Seq::new(count as nat, |i: int| signed8(bytes[i] as int) as i8));
            TagValue::SByte(out)
        },
        DataType::Short => {
            let out = read_u16s(src, order, start, count);
            assert forall|i: int| 0 <= i < count implies out@[i] == u16_at(
                bytes,
                2 * i,
                order,
            ) as u16 by {
                lemma_u16_at_subrange(src@, start as int, end, 2 * i, order);
            }
            assert(out@ =~= Seq::new(count as nat, |i: int| u16_at(bytes, 2 * i, order) as u16));
            TagValue::Short(out)
        },
        DataType::SShort => {
            let out = read_i16s(src, order, start, count);
            assert forall|i: int| 0 <= i < count implies out@[i] == signed16(
                u16_at(bytes, 2 * i, order),
            ) as i16 by {
                lemma_u16_at_subrange(src@, start as int, end, 2 * i, order);
            }
            assert(out@ =~= Seq::new(
                count as nat,
                |i: int| signed16(u16_at(bytes, 2 * i, order)) as i16,
            ));
            TagValue::SShort(out)
        },
        DataType::Long => {
            let out = read_u32s(src, order, start, count);
            assert forall|i: int| 0 <= i < count implies out@[i] == u32_at(
                bytes,
                4 * i,
                order,
            ) as u32 by {
                lemma_u32_at_subrange(src@, start as int, end, 4 * i, order);
            }
            assert(out@ =~= Seq::new(count as nat, |i: int| u32_at(bytes, 4 * i, order) as u32));
            TagValue::Long(out)
        },
        DataType::SLong => {
            let out = read_i32s(src, order, start, count);
            assert forall|i: int| 0 <= i < count implies out@[i] == signed32(
                u32_at(bytes, 4 * i, order),
            ) as i32 by {
                lemma_u32_at_subrange(src@, start as int, end, 4 * i, order);
            }
            assert(out@ =~= Seq::new(
                count as nat,
                |i: int| signed32(u32_at(bytes, 4 * i, order)) as i32,
            ));
            TagValue::SLong(out)
        },
        DataType::Rational => {
            let out = read_rationals(src, order, start, count);
            assert forall|i: int| 0 <= i < count implies out@[i] == (
                u32_at(bytes, 8 * i, order) as u32,
                u32_at(bytes, 8 * i + 4, order) as u32,
            ) by {
                lemma_u32_at_subrange(src@, start as int, end, 8 * i, order);
                lemma_u32_at_subrange(src@, start as int, end, 8 * i + 4, order);
            }
            assert(out@ =~= Seq::new(
                count as nat,
                |i: int|
                    (u32_at(bytes, 8 * i, order) as u32, u32_at(bytes, 8 * i + 4, order) as u32),
            ));
            TagValue::Rational(out)
        },
        DataType::SRational => {
            let out = read_srationals(src, order, start, count);
            assert forall|i: int| 0 <= i < count implies out@[i] == (
                signed32(u32_at(bytes, 8 * i, order)) as i32,
                signed32(u32_at(bytes, 8 * i + 4, order)) as i32,
            ) by {
                lemma_u32_at_subrange(src@, start as int, end, 8 * i, order);
                lemma_u32_at_subrange(src@, start as int, end, 8 * i + 4, order);
            }
            assert(out@ =~= Seq::new(
                count as nat,
                |i: int|
                    (
                        signed32(u32_at(bytes, 8 * i, order)) as i32,
                        signed32(u32_at(bytes, 8 * i + 4, order)) as i32,
                    ),
            ));
            TagValue::SRational(out)
        },
    }
}

/// Decodes the value of an entry of a container with the bytes `region`.
///
/// Whether the value is read from the entry's field or from the container
/// is decided by its size alone: at most four bytes are read from the
/// field, more are read at the offset that the field holds. The result is
/// `None` exactly when such an offset value does not lie inside `region`.
pub fn resolve(entry: &DirectoryEntry, order: ByteOrder, region: &[u8]) -> (r: Option<TagValue>)
    ensures
        match r {
            Some(v) => value_of(*entry, order, region@) == Some(v@),
            None => value_of(*entry, order, region@) is None,
        },
{
    let t = entry.kind();
    let field: &[u8] = entry.field.as_slice();
    if t == DataType::Unknown {
        let raw = copy_bytes(field, 0, FIELD_LEN);
        assert(raw@ =~= entry.field@);
        return Some(TagValue::Unknown(raw));
    }
    let size: u64 = entry.byte_size();
    if size <= 4 {
        assert(entry.count as nat <= entry.size()) by (nonlinear_arith)
            requires
                entry.size() == entry.count as nat * unit_size(t),
                unit_size(t) >= 1,
        ;
        Some(decode_at(t, order, field, 0, entry.count as usize))
    } else {
        let offset: u64 = read_u32(field, 0, order) as u64;
        if offset + size <= region.len() as u64 {
            assert(entry.count as nat <= entry.size()) by (nonlinear_arith)
                requires
                    entry.size() == entry.count as nat * unit_size(t),
                    unit_size(t) >= 1,
            ;
            Some(decode_at(t, order, region, offset as usize, entry.count as usize))
        } else {
            None
        }
    }
}

} // verus!
