//! Finding the metadata container inside an image's bytes.
//!
//! A container starts right after a signature, a short fixed byte sequence
//! that depends on the image format. The signature is looked for only
//! where the format can hold a container: at the start of the payload of
//! a JPEG segment or a PNG chunk, unit by unit from the start of the file.
//! A file of any other format holds none.
//!
//! A container opens with an eight-byte header: a two-byte byte-order
//! marker, the number 42, and the offset of the first directory. Offsets
//! inside a container count from its base, and the container ends where
//! the unit that holds it declares its own end.

use vstd::prelude::*;
use crate::bytes::{ByteOrder, u16_at, u32_at, read_u16, read_u32};
use crate::error::MetadataError;

verus! {

/// A signature is only looked for where it starts within this many bytes
/// from the beginning of the byte source.
pub const SCAN_LIMIT: usize = 65536;

/// The number of bytes of a container's header.
pub const HEADER_LEN: usize = 8;

/// A metadata container inside a byte source.
#[derive(Clone, Copy, Debug, PartialEq, Eq, Structural)]
pub struct Container {
    /// Where the container starts in the byte source.
    pub base: usize,
    /// The number of bytes of the container.
    pub len: usize,
    /// The byte order of every multi-byte field in the container.
    pub order: ByteOrder,
    /// The offset of the first directory, counted from `base`.
    pub first_directory: u32,
}

/// How a file is divided into the units that can hold a container.
#[derive(Clone, Copy, Debug, PartialEq, Eq, Structural)]
pub enum Layout {
    /// A JPEG file: marker segments behind the two bytes of the start marker.
    Segments,
    /// A PNG file: chunks behind the eight bytes of the file signature.
    Chunks,
    /// Any other file: nothing in it can hold a container.
    Plain,
}

/// The bytes with which a PNG file starts.
pub open spec fn png_magic() -> Seq<u8> {
    seq![0x89u8, 0x50u8, 0x4Eu8, 0x47u8, 0x0Du8, 0x0Au8, 0x1Au8, 0x0Au8]
}

/// The bytes with which a JPEG file starts.
pub open spec fn jpeg_magic() -> Seq<u8> {
    seq![0xFFu8, 0xD8u8]
}

/// The signature in front of a container in a PNG file: the chunk type `eXIf`.
pub open spec fn png_signature() -> Seq<u8> {
    seq![0x65u8, 0x58u8, 0x49u8, 0x66u8]
}

/// The signature in front of a container in a JPEG segment: `Exif`, then
/// two zero bytes.
pub open spec fn segment_signature() -> Seq<u8> {
    seq![0x45u8, 0x78u8, 0x69u8, 0x66u8, 0u8, 0u8]
}

/// The type of the last chunk of a PNG file: `IEND`.
pub open spec fn end_chunk() -> Seq<u8> {
    seq![0x49u8, 0x45u8, 0x4Eu8, 0x44u8]
}

/// `pattern` stands in `data` at index `i`.
pub open spec fn occurs_at(data: Seq<u8>, pattern: Seq<u8>, i: int) -> bool {
    &&& 0 <= i
    &&& i + pattern.len() <= data.len()
    &&& data.subrange(i, i + pattern.len()) == pattern
}

/// The layout that the first bytes of a file show.
pub open spec fn layout_of(data: Seq<u8>) -> Layout {
    if occurs_at(data, png_magic(), 0) {
        Layout::Chunks
    } else if occurs_at(data, jpeg_magic(), 0) {
        Layout::Segments
    } else {
        Layout::Plain
    }
}

/// The signature that stands in front of a container in a file of a layout.
pub open spec fn signature(layout: Layout) -> Seq<u8> {
    match layout {
        Layout::Chunks => png_signature(),
        _ => segment_signature(),
    }
}

/// The signature to look for in `data`.
pub open spec fn signature_of(data: Seq<u8>) -> Seq<u8> {
    signature(layout_of(data))
}

/// Where the first unit of a file starts.
pub open spec fn first_unit(layout: Layout) -> int {
    match layout {
        Layout::Segments => 2,
        Layout::Chunks => 8,
        Layout::Plain => 0,
    }
}

/// A unit starts at `p`: the bytes that say what it is and how long it is
/// lie inside `data`. A segment starts with the byte 0xFF, a marker code,
/// and a length of two bytes that counts itself; a chunk with a length of
/// four bytes and a type of four bytes.
pub open spec fn unit_starts(data: Seq<u8>, layout: Layout, p: int) -> bool {
    match layout {
        Layout::Segments => p + 4 <= data.len() && data[p] == 0xFF && u16_at(
            data,
            p + 2,
            ByteOrder::BigEndian,
        ) >= 2,
        Layout::Chunks => p + 8 <= data.len(),
        Layout::Plain => false,
    }
}

/// The unit at `p` holds a container: the signature stands four bytes
/// into it, and a segment has the marker code 0xE1.
pub open spec fn holds_container(data: Seq<u8>, layout: Layout, p: int) -> bool {
    &&& occurs_at(data, signature(layout), p + 4)
    &&& layout == Layout::Segments ==> data[p + 1] == 0xE1
}

/// No container can follow the unit at `p`: it is the segment that starts
/// the scan data (0xDA) or ends the image (0xD9), or the chunk `IEND`.
pub open spec fn is_last_unit(data: Seq<u8>, layout: Layout, p: int) -> bool {
    match layout {
        Layout::Segments => data[p + 1] == 0xDA || data[p + 1] == 0xD9,
        Layout::Chunks => occurs_at(data, end_chunk(), p + 4),
        Layout::Plain => true,
    }
}

/// Where the unit behind the one at `p` starts.
pub open spec fn next_unit(data: Seq<u8>, layout: Layout, p: int) -> int {
    match layout {
        Layout::Segments => p + 2 + u16_at(data, p + 2, ByteOrder::BigEndian),
        Layout::Chunks => p + 12 + u32_at(data, p, ByteOrder::BigEndian),
        Layout::Plain => p + 1,
    }
}

/// Where the content of the unit at `p` ends, by the length that the unit
/// declares.
pub open spec fn unit_end(data: Seq<u8>, layout: Layout, p: int) -> int {
    match layout {
        Layout::Segments => p + 2 + u16_at(data, p + 2, ByteOrder::BigEndian),
        Layout::Chunks => p + 8 + u32_at(data, p, ByteOrder::BigEndian),
        Layout::Plain => p,
    }
}

/// Where the signature of the first unit that holds a container stands,
/// among the units from the one at `p` on; `None` where the units end
/// before such a one, or where its signature would not start below
/// `SCAN_LIMIT`.
pub open spec fn signature_from(data: Seq<u8>, layout: Layout, p: int) -> Option<int>
    decreases data.len() - p,
{
    if p < 0 || p + 4 >= SCAN_LIMIT || !unit_starts(data, layout, p) {
        None
    } else if holds_container(data, layout, p) {
        Some(p + 4)
    } else if is_last_unit(data, layout, p) || next_unit(data, layout, p) > data.len() {
        None
    } else {
        signature_from(data, layout, next_unit(data, layout, p))
    }
}

/// Where the signature in front of the container of `data` stands, if
/// `data` has one.
pub open spec fn found_signature(data: Seq<u8>) -> Option<int> {
    signature_from(data, layout_of(data), first_unit(layout_of(data)))
}

/// The byte order that the marker at `base` declares.
pub open spec fn marker_order(data: Seq<u8>, base: int) -> Option<ByteOrder> {
    if data[base] == 0x49 && data[base + 1] == 0x49 {
        Some(ByteOrder::LittleEndian)
    } else if data[base] == 0x4D && data[base + 1] == 0x4D {
        Some(ByteOrder::BigEndian)
    } else {
        None
    }
}

/// The container of `len` bytes whose header stands at `base`, if it lies
/// inside `data` and the header is sound: all eight bytes are there, the
/// marker is `II` or `MM`, the number 42 follows, and the offset of the
/// first directory lies inside the container.
pub open spec fn header_at(data: Seq<u8>, base: int, len: int) -> Option<Container> {
    if base < 0 || len < HEADER_LEN || base + len > data.len() {
        None
    } else {
        match marker_order(data, base) {
            None => None,
            Some(order) => {
                if u16_at(data, base + 2, order) != 42 {
                    None
                } else if u32_at(data, base + 4, order) >= len {
                    None
                } else {
                    Some(
                        Container {
                            base: base as usize,
                            len: len as usize,
                            order,
                            first_directory: u32_at(data, base + 4, order) as u32,
                        },
                    )
                }
            },
        }
    }
}

/// The container behind the signature at `i`: it starts behind the
/// signature and ends where the unit declares its end.
pub open spec fn container_at(data: Seq<u8>, i: int) -> Option<Container> {
    let base = i + signature_of(data).len();
    header_at(data, base, unit_end(data, layout_of(data), i - 4) - base)
}

/// What `locate` returns for `data`.
pub open spec fn located(data: Seq<u8>) -> Result<Container, MetadataError> {
    match found_signature(data) {
        None => Err(MetadataError::NotFound),
        Some(i) => match container_at(data, i) {
            Some(c) => Ok(c),
            None => Err(MetadataError::MalformedContainer),
        },
    }
}

/// No metadata container can be found in `data`.
pub open spec fn has_no_container(data: Seq<u8>) -> bool {
    located(data) == Err::<Container, MetadataError>(MetadataError::NotFound)
}

/// Where a signature is found, it stands there, and it starts below
/// `SCAN_LIMIT`.
pub proof fn lemma_found_signature_occurs(data: Seq<u8>, layout: Layout, p: int)
    ensures
        match signature_from(data, layout, p) {
            Some(i) => 0 <= i < SCAN_LIMIT && occurs_at(data, signature(layout), i),
            None => true,
        },
    decreases data.len() - p,
{
    if p < 0 || p + 4 >= SCAN_LIMIT || !unit_starts(data, layout, p) {
    } else if holds_container(data, layout, p) {
    } else if is_last_unit(data, layout, p) || next_unit(data, layout, p) > data.len() {
    } else {
        lemma_found_signature_occurs(data, layout, next_unit(data, layout, p));
    }
}

/// A byte source in whose scanned prefix the signature stands nowhere has
/// no container.
pub proof fn lemma_no_signature_is_not_found(data: Seq<u8>)
    requires
        forall|i: int| 0 <= i < SCAN_LIMIT ==> !occurs_at(data, signature_of(data), i),
    ensures
        has_no_container(data),
{
    lemma_found_signature_occurs(data, layout_of(data), first_unit(layout_of(data)));
}

/// Whether `pattern` stands in `data` at index `i`.
fn pattern_at(data: &[u8], pattern: &Vec<u8>, i: usize) -> (r: bool)
    ensures
        r == occurs_at(data@, pattern@, i as int),
{
    let n: usize = pattern.len();
    if data.len() < n || i > data.len() - n {
        return false;
    }
    let mut k: usize = 0;
    while k < n
        invariant
            n == pattern.len(),
            i + n <= data.len(),
            k <= n,
            forall|j: int| 0 <= j < k ==> data@[i + j] == pattern@[j],
        decreases n - k,
    {
        if data[i + k] != pattern[k] {
            assert(data@.subrange(i as int, i + n)[k as int] == data@[i + k]);
            return false;
        }
        k = k + 1;
    }
    assert(data@.subrange(i as int, i + n) =~= pattern@);
    true
}

/// The layout that the first bytes of `data` show.
pub fn layout_for(data: &[u8]) -> (layout: Layout)
    ensures
        layout == layout_of(data@),
{
    let png: Vec<u8> = vec![0x89u8, 0x50u8, 0x4Eu8, 0x47u8, 0x0Du8, 0x0Au8, 0x1Au8, 0x0Au8];
    let jpeg: Vec<u8> = vec![0xFFu8, 0xD8u8];
    assert(png@ =~= png_magic());
    assert(jpeg@ =~= jpeg_magic());
    if pattern_at(data, &png, 0) {
        Layout::Chunks
    } else if pattern_at(data, &jpeg, 0) {
        Layout::Segments
    } else {
        Layout::Plain
    }
}

/// The signature in front of a container in a file of a layout.
fn signature_for(layout: Layout) -> (sig: Vec<u8>)
    ensures
        sig@ == signature(layout),
{
    match layout {
        Layout::Chunks => {
            let sig: Vec<u8> = vec![0x65u8, 0x58u8, 0x49u8, 0x66u8];
            assert(sig@ =~= png_signature());
            sig
        },
        _ => {
            let sig: Vec<u8> = vec![0x45u8, 0x78u8, 0x69u8, 0x66u8, 0u8, 0u8];
            assert(sig@ =~= segment_signature());
            sig
        },
    }
}

/// Whether a unit starts at `p`.
fn starts_unit(data: &[u8], layout: Layout, p: usize) -> (r: bool)
    requires
        p < SCAN_LIMIT,
    ensures
        r == unit_starts(data@, layout, p as int),
{
    match layout {
        Layout::Segments => p + 4 <= data.len() && data[p] == 0xFF && read_u16(
            data,
            p + 2,
            ByteOrder::BigEndian,
        ) >= 2,
        Layout::Chunks => p + 8 <= data.len(),
        Layout::Plain => false,
    }
}

/// Whether the unit at `p` holds a container.
fn unit_holds_container(data: &[u8], layout: Layout, sig: &Vec<u8>, p: usize) -> (r: bool)
    requires
        p < SCAN_LIMIT,
        unit_starts(data@, layout, p as int),
        sig@ == signature(layout),
    ensures
        r == holds_container(data@, layout, p as int),
{
    let coded: bool = match layout {
        Layout::Segments => data[p + 1] == 0xE1,
        _ => true,
    };
    coded && pattern_at(data, sig, p + 4)
}

/// Whether no container can follow the unit at `p`.
fn unit_is_last(data: &[u8], layout: Layout, p: usize) -> (r: bool)
    requires
        p < SCAN_LIMIT,
        unit_starts(data@, layout, p as int),
    ensures
        r == is_last_unit(data@, layout, p as int),
{
    match layout {
        Layout::Segments => data[p + 1] == 0xDA || data[p + 1] == 0xD9,
        Layout::Chunks => {
            let end: Vec<u8> = vec![0x49u8, 0x45u8, 0x4Eu8, 0x44u8];
            assert(end@ =~= end_chunk());
            pattern_at(data, &end, p + 4)
        },
        Layout::Plain => true,
    }
}

/// Where the unit behind the one at `p` starts.
fn unit_after(data: &[u8], layout: Layout, p: usize) -> (next: u64)
    requires
        p < SCAN_LIMIT,
        unit_starts(data@, layout, p as int),
    ensures
        next == next_unit(data@, layout, p as int),
        next > p,
{
    match layout {
        Layout::Segments => p as u64 + 2 + read_u16(data, p + 2, ByteOrder::BigEndian) as u64,
        Layout::Chunks => p as u64 + 12 + read_u32(data, p, ByteOrder::BigEndian) as u64,
        Layout::Plain => p as u64 + 1,
    }
}

/// Where the content of the unit at `p` ends.
fn end_of_unit(data: &[u8], layout: Layout, p: usize) -> (end: u64)
    requires
        p < SCAN_LIMIT,
        unit_starts(data@, layout, p as int),
    ensures
        end == unit_end(data@, layout, p as int),
{
    match layout {
        Layout::Segments => p as u64 + 2 + read_u16(data, p + 2, ByteOrder::BigEndian) as u64,
        Layout::Chunks => p as u64 + 8 + read_u32(data, p, ByteOrder::BigEndian) as u64,
        Layout::Plain => p as u64,
    }
}

/// Reads and checks the header of a container of `len` bytes that starts
/// at `base`.
///
/// Returns the container exactly when it lies inside `data`, holds all
/// eight header bytes, the byte-order marker is one of the two accepted
/// values, the number 42 follows it, and the offset of the first
/// directory lies inside the container.
pub fn read_header(data: &[u8], base: usize, len: usize) -> (r: Option<Container>)
    ensures
        r == header_at(data@, base as int, len as int),
{
    if len < HEADER_LEN || base > data.len() || len > data.len() - base {
        return None;
    }
    let order = if data[base] == 0x49 && data[base + 1] == 0x49 {
        ByteOrder::LittleEndian
    } else if data[base] == 0x4D && data[base + 1] == 0x4D {
        ByteOrder::BigEndian
    } else {
        return None;
    };
    if read_u16(data, base + 2, order) != 42 {
        return None;
    }
    let first: u32 = read_u32(data, base + 4, order);
    if first as u64 >= len as u64 {
        return None;
    }
    Some(Container { base, len, order, first_directory: first })
}

/// Finds the metadata container of an image.
///
/// The units of the file are gone through from its start, and the first
/// one that holds a container decides. The container reaches from behind
/// the signature to the end that the unit declares: where it lies inside
/// the byte source and opens with a sound header, the result is the
/// container, else `MalformedContainer`. The result is `NotFound` where the file is
/// neither JPEG nor PNG, and where its units end, or reach `SCAN_LIMIT`,
/// before one holds a container; so it is wherever the signature stands
/// nowhere in the scanned prefix.
pub fn locate(data: &[u8]) -> (r: Result<Container, MetadataError>)
    ensures
        r == located(data@),
        (forall|i: int| 0 <= i < SCAN_LIMIT ==> !occurs_at(data@, signature_of(data@), i)) ==> r
            == Err::<Container, MetadataError>(MetadataError::NotFound),
{
    let layout = layout_for(data);
    let sig = signature_for(layout);
    let mut p: usize = match layout {
        Layout::Segments => 2,
        Layout::Chunks => 8,
        Layout::Plain => 0,
    };
    proof {
        lemma_found_signature_occurs(data@, layout, p as int);
    }
    while p + 4 < SCAN_LIMIT
        invariant
            p < SCAN_LIMIT,
            layout == layout_of(data@),
            sig@ == signature(layout),
            found_signature(data@) == signature_from(data@, layout, p as int),
        decreases SCAN_LIMIT - p,
    {
        if !starts_unit(data, layout, p) {
            return Err(MetadataError::NotFound);
        }
        if unit_holds_container(data, layout, &sig, p) {
            let base: usize = p + 4 + sig.len();
            let end: u64 = end_of_unit(data, layout, p);
            if end < base as u64 || end > data.len() as u64 {
                return Err(MetadataError::MalformedContainer);
            }
            return match read_header(data, base, end as usize - base) {
                Some(c) => Ok(c),
                None => Err(MetadataError::MalformedContainer),
            };
        }
        if unit_is_last(data, layout, p) {
            return Err(MetadataError::NotFound);
        }
        let next: u64 = unit_after(data, layout, p);
        if next > data.len() as u64 || next >= SCAN_LIMIT as u64 {
            assert(signature_from(data@, layout, next as int).is_none());
            return Err(MetadataError::NotFound);
        }
        p = next as usize;
    }
    Err(MetadataError::NotFound)
}

} // verus!
