//! Directory entries and the values they hold.
//!
//! An entry is a record of twelve bytes: a numeric id, a type code, a count
//! of values, and a field of four bytes. The count times the size of one
//! value of the type is the size of the entry's value. A value of at most
//! four bytes stands in the field itself; a larger one stands elsewhere in
//! the container, and the field holds its offset.

use vstd::prelude::*;
use crate::bytes::{ByteOrder, u16_at, u32_at, signed8, signed16, signed32, read_u16, read_u32,
    lemma_u16_at_range, lemma_u32_at_range};

verus! {

/// The number of bytes of one entry record.
pub const ENTRY_LEN: usize = 12;

/// The number of bytes of an entry's value field.
pub const FIELD_LEN: usize = 4;

/// The type of the values of an entry.
#[derive(Clone, Copy, Debug, PartialEq, Eq, Structural)]
pub enum DataType {
    /// Unsigned 8-bit numbers (code 1).
    Byte,
    /// A string of 8-bit characters with a terminating zero (code 2).
    Ascii,
    /// Unsigned 16-bit numbers (code 3).
    Short,
    /// Unsigned 32-bit numbers (code 4).
    Long,
    /// Pairs of unsigned 32-bit numbers, numerator and denominator (code 5).
    Rational,
    /// Signed 8-bit numbers (code 6).
    SByte,
    /// Bytes without further structure (code 7).
    Undefined,
    /// Signed 16-bit numbers (code 8).
    SShort,
    /// Signed 32-bit numbers (code 9).
    SLong,
    /// Pairs of signed 32-bit numbers, numerator and denominator (code 10).
    SRational,
    /// Any other code.
    Unknown,
}

/// The type that a type code stands for.
pub open spec fn data_type_of(code: u16) -> DataType {
    if code == 1 {
        DataType::Byte
    } else if code == 2 {
        DataType::Ascii
    } else if code == 3 {
        DataType::Short
    } else if code == 4 {
        DataType::Long
    } else if code == 5 {
        DataType::Rational
    } else if code == 6 {
        DataType::SByte
    } else if code == 7 {
        DataType::Undefined
    } else if code == 8 {
        DataType::SShort
    } else if code == 9 {
        DataType::SLong
    } else if code == 10 {
        DataType::SRational
    } else {
        DataType::Unknown
    }
}

/// The number of bytes of one value of a type; 0 where the type is unknown.
pub open spec fn unit_size(t: DataType) -> nat {
    match t {
        DataType::Byte | DataType::Ascii | DataType::SByte | DataType::Undefined => 1,
        DataType::Short | DataType::SShort => 2,
        DataType::Long | DataType::SLong => 4,
        DataType::Rational | DataType::SRational => 8,
        DataType::Unknown => 0,
    }
}

/// The kind of directory that holds a tag. It decides what the numeric id
/// of the tag means.
#[derive(Clone, Copy, Debug, PartialEq, Eq, Structural)]
pub enum TagContext {
    /// A directory of the chain that starts at the first directory.
    Tiff,
    /// The directory behind the Exif pointer of a chain directory.
    Exif,
    /// The directory behind the GPS pointer of a chain directory.
    Gps,
    /// The directory behind the interoperability pointer of an Exif directory.
    Interop,
}

/// The id of the entry that points at the Exif directory.
pub const EXIF_POINTER: u16 = 0x8769;

/// The id of the entry that points at the GPS directory.
pub const GPS_POINTER: u16 = 0x8825;

/// The id of the entry that points at the interoperability directory.
pub const INTEROP_POINTER: u16 = 0xA005;

/// The kind of directory that an entry with the given id points at, if
/// it is a pointer in a directory of the given kind.
pub open spec fn child_context(context: TagContext, id: u16) -> Option<TagContext> {
    match context {
        TagContext::Tiff => if id == EXIF_POINTER {
            Some(TagContext::Exif)
        } else if id == GPS_POINTER {
            Some(TagContext::Gps)
        } else {
            None
        },
        TagContext::Exif => if id == INTEROP_POINTER {
            Some(TagContext::Interop)
        } else {
            None
        },
        _ => None,
    }
}

/// How many levels of directories can hang below one of the given kind.
pub open spec fn depth_below(context: TagContext) -> nat {
    match context {
        TagContext::Tiff => 2,
        TagContext::Exif => 1,
        _ => 0,
    }
}

/// One record of a directory, as it is stored.
#[derive(Clone, Copy, Debug, PartialEq, Eq)]
pub struct DirectoryEntry {
    /// The numeric id of the tag.
    pub id: u16,
    /// The code of the type of the values.
    pub type_code: u16,
    /// The number of values.
    pub count: u32,
    /// The four bytes of the value field, in stored order.
    pub field: [u8; 4],
}

impl DirectoryEntry {
    /// The type of the values.
    pub open spec fn data_type(self) -> DataType {
        data_type_of(self.type_code)
    }

    /// The number of bytes of the value: the count times the size of one value.
    pub open spec fn size(self) -> nat {
        self.count as nat * unit_size(self.data_type())
    }

    /// Whether the value stands in the field itself.
    pub open spec fn is_inline(self) -> bool {
        self.size() <= FIELD_LEN
    }

    /// The field read as an offset into the container.
    pub open spec fn offset(self, order: ByteOrder) -> int {
        u32_at(self.field@, 0, order)
    }

    /// Where the directory stands that the entry points at, if the entry
    /// is a pointer in a directory of the given kind: a single unsigned
    /// 32-bit number under one of the pointer ids.
    pub open spec fn pointer(self, context: TagContext, order: ByteOrder) -> Option<
        (TagContext, int),
    > {
        match child_context(context, self.id) {
            Some(child) => if self.data_type() == DataType::Long && self.count == 1 {
                Some((child, self.offset(order)))
            } else {
                None
            },
            None => None,
        }
    }

    /// The type of the values.
    pub fn kind(&self) -> (t: DataType)
        ensures
            t == self.data_type(),
    {
        match self.type_code {
            1 => DataType::Byte,
            2 => DataType::Ascii,
            3 => DataType::Short,
            4 => DataType::Long,
            5 => DataType::Rational,
            6 => DataType::SByte,
            7 => DataType::Undefined,
            8 => DataType::SShort,
            9 => DataType::SLong,
            10 => DataType::SRational,
            _ => DataType::Unknown,
        }
    }

    /// Where the directory stands that the entry points at, if the entry
    /// is a pointer in a directory of the given kind.
    pub fn points_at(&self, context: TagContext, order: ByteOrder) -> (r: Option<
        (TagContext, u32),
    >)
        ensures
            match r {
                Some((child, sub)) => self.pointer(context, order) == Some((child, sub as int)),
                None => self.pointer(context, order).is_none(),
            },
    {
        let child: TagContext = match context {
            TagContext::Tiff => if self.id == EXIF_POINTER {
                TagContext::Exif
            } else if self.id == GPS_POINTER {
                TagContext::Gps
            } else {
                return None;
            },
            TagContext::Exif => if self.id == INTEROP_POINTER {
                TagContext::Interop
            } else {
                return None;
            },
            _ => {
                return None;
            },
        };
        if self.type_code == 4 && self.count == 1 {
            proof {
                lemma_u32_at_range(self.field@, 0, order);
            }
            Some((child, read_u32(self.field.as_slice(), 0, order)))
        } else {
            None
        }
    }

    /// The number of bytes of the value.
    pub fn byte_size(&self) -> (n: u64)
        ensures
            n == self.size(),
    {
        let unit: u64 = match self.kind() {
            DataType::Byte | DataType::Ascii | DataType::SByte | DataType::Undefined => 1,
            DataType::Short | DataType::SShort => 2,
            DataType::Long | DataType::SLong => 4,
            DataType::Rational | DataType::SRational => 8,
            DataType::Unknown => 0,
        };
        assert(self.count as nat * unit as nat <= 0xFFFF_FFFF * 8) by (nonlinear_arith)
            requires
                self.count <= 0xFFFF_FFFF,
                unit <= 8,
        ;
        self.count as u64 * unit
    }
}

/// The values of an entry, decoded by its type.
#[derive(Clone, Debug, PartialEq, Eq)]
pub enum TagValue {
    /// Unsigned 8-bit numbers.
    Byte(Vec<u8>),
    /// The bytes of a string, terminator included.
    Ascii(Vec<u8>),
    /// Unsigned 16-bit numbers.
    Short(Vec<u16>),
    /// Unsigned 32-bit numbers.
    Long(Vec<u32>),
    /// Pairs of numerator and denominator.
    Rational(Vec<(u32, u32)>),
    /// Signed 8-bit numbers.
    SByte(Vec<i8>),
    /// Bytes without further structure.
    Undefined(Vec<u8>),
    /// Signed 16-bit numbers.
    SShort(Vec<i16>),
    /// Signed 32-bit numbers.
    SLong(Vec<i32>),
    /// Pairs of signed numerator and denominator.
    SRational(Vec<(i32, i32)>),
    /// The four bytes of the value field of an entry of unknown type.
    Unknown(Vec<u8>),
}

/// The mathematical content of a `TagValue`.
pub enum ValueView {
    Byte(Seq<u8>),
    Ascii(Seq<u8>),
    Short(Seq<u16>),
    Long(Seq<u32>),
    Rational(Seq<(u32, u32)>),
    SByte(Seq<i8>),
    Undefined(Seq<u8>),
    SShort(Seq<i16>),
    SLong(Seq<i32>),
    SRational(Seq<(i32, i32)>),
    Unknown(Seq<u8>),
}

impl View for TagValue {
    type V = ValueView;

    open spec fn view(&self) -> ValueView {
        match self {
            TagValue::Byte(v) => ValueView::Byte(v@),
            TagValue::Ascii(v) => ValueView::Ascii(v@),
            TagValue::Short(v) => ValueView::Short(v@),
            TagValue::Long(v) => ValueView::Long(v@),
            TagValue::Rational(v) => ValueView::Rational(v@),
            TagValue::SByte(v) => ValueView::SByte(v@),
            TagValue::Undefined(v) => ValueView::Undefined(v@),
            TagValue::SShort(v) => ValueView::SShort(v@),
            TagValue::SLong(v) => ValueView::SLong(v@),
            TagValue::SRational(v) => ValueView::SRational(v@),
            TagValue::Unknown(v) => ValueView::Unknown(v@),
        }
    }
}

/// A directory entry together with its decoded value.
#[derive(Clone, Debug, PartialEq, Eq)]
pub struct ResolvedTag {
    /// The kind of directory that holds the entry.
    pub context: TagContext,
    /// The entry as it is stored.
    pub entry: DirectoryEntry,
    /// The values of the entry.
    pub value: TagValue,
}

/// The mathematical content of a `ResolvedTag`.
pub struct TagView {
    pub context: TagContext,
    pub entry: DirectoryEntry,
    pub value: ValueView,
}

impl View for ResolvedTag {
    type V = TagView;

    open spec fn view(&self) -> TagView {
        TagView { context: self.context, entry: self.entry, value: self.value@ }
    }
}

/// The views of a sequence of tags, in the same order.
pub open spec fn tag_views(tags: Seq<ResolvedTag>) -> Seq<TagView> {
    Seq::new(tags.len(), |i: int| tags[i]@)
}

/// The entry whose record starts at `pos` in `region`.
pub open spec fn entry_at(region: Seq<u8>, order: ByteOrder, pos: int) -> DirectoryEntry {
    DirectoryEntry {
        id: u16_at(region, pos, order) as u16,
        type_code: u16_at(region, pos + 2, order) as u16,
        count: u32_at(region, pos + 4, order) as u32,
        field: [region[pos + 8], region[pos + 9], region[pos + 10], region[pos + 11]],
    }
}

/// The value that `count` values of type `t` make of `bytes`.
pub open spec fn decode(t: DataType, order: ByteOrder, bytes: Seq<u8>, count: nat) -> ValueView {
    match t {
        DataType::Byte => ValueView::Byte(bytes),
        DataType::Ascii => ValueView::Ascii(bytes),
        DataType::Undefined => ValueView::Undefined(bytes),
        DataType::Unknown => ValueView::Unknown(bytes),
        DataType::SByte => ValueView::SByte(
            Seq::new(count, |i: int| signed8(bytes[i] as int) as i8),
        ),
        DataType::Short => ValueView::Short(
            Seq::new(count, |i: int| u16_at(bytes, 2 * i, order) as u16),
        ),
        DataType::SShort => ValueView::SShort(
            Seq::new(count, |i: int| signed16(u16_at(bytes, 2 * i, order)) as i16),
        ),
        DataType::Long => ValueView::Long(
            Seq::new(count, |i: int| u32_at(bytes, 4 * i, order) as u32),
        ),
        DataType::SLong => ValueView::SLong(
            Seq::new(count, |i: int| signed32(u32_at(bytes, 4 * i, order)) as i32),
        ),
        DataType::Rational => ValueView::Rational(
            Seq::new(
                count,
                |i: int|
                    (u32_at(bytes, 8 * i, order) as u32, u32_at(bytes, 8 * i + 4, order) as u32),
            ),
        ),
        DataType::SRational => ValueView::SRational(
            Seq::new(
                count,
                |i: int|
                    (
                        signed32(u32_at(bytes, 8 * i, order)) as i32,
                        signed32(u32_at(bytes, 8 * i + 4, order)) as i32,
                    ),
            ),
        ),
    }
}

/// The value of an entry inside a container with the bytes `region`, or
/// `None` where the entry is rejected.
///
/// An entry of unknown type keeps the four bytes of its field. A value of
/// at most four bytes is read from the field, whatever the container holds.
/// A larger value is read from the container at the offset that the field
/// gives, and the entry is rejected unless the whole value lies inside.
pub open spec fn value_of(entry: DirectoryEntry, order: ByteOrder, region: Seq<u8>) -> Option<
    ValueView,
> {
    let t = entry.data_type();
    if t == DataType::Unknown {
        Some(ValueView::Unknown(entry.field@))
    } else if entry.is_inline() {
        Some(decode(t, order, entry.field@.subrange(0, entry.size() as int), entry.count as nat))
    } else if entry.offset(order) + entry.size() <= region.len() {
        Some(
            decode(
                t,
                order,
                region.subrange(entry.offset(order), entry.offset(order) + entry.size()),
                entry.count as nat,
            ),
        )
    } else {
        None
    }
}

/// A value of at most four bytes is read from the entry's field and never
/// treated as an offset: the entry is not rejected, and it has the same
/// value whatever the container holds.
pub proof fn lemma_small_value_is_inline(
    entry: DirectoryEntry,
    order: ByteOrder,
    region: Seq<u8>,
    other: Seq<u8>,
)
    requires
        entry.size() <= FIELD_LEN,
    ensures
        value_of(entry, order, region).is_some(),
        value_of(entry, order, region) == value_of(entry, order, other),
        entry.data_type() != DataType::Unknown ==> value_of(entry, order, region) == Some(
            decode(
                entry.data_type(),
                order,
                entry.field@.subrange(0, entry.size() as int),
                entry.count as nat,
            ),
        ),
{
}

/// A value of more than four bytes is read from the container at the
/// offset that the entry's field holds, and never from the field: it is
/// made of the bytes that stand there, and the entry is rejected exactly
/// when they do not all lie inside the container.
pub proof fn lemma_large_value_is_at_offset(
    entry: DirectoryEntry,
    order: ByteOrder,
    region: Seq<u8>,
)
    requires
        entry.size() > FIELD_LEN,
    ensures
        value_of(entry, order, region).is_some() <==> entry.offset(order) + entry.size()
            <= region.len(),
        value_of(entry, order, region).is_some() ==> value_of(entry, order, region) == Some(
            decode(
                entry.data_type(),
                order,
                region.subrange(entry.offset(order), entry.offset(order) + entry.size()),
                entry.count as nat,
            ),
        ),
{
}

/// Reads the entry whose record starts at `pos`.
pub(crate) fn read_entry(region: &[u8], order: ByteOrder, pos: usize) -> (e: DirectoryEntry)
    requires
        pos + ENTRY_LEN <= region.len(),
    ensures
        e == entry_at(region@, order, pos as int),
{
    let e = DirectoryEntry {
        id: read_u16(region, pos, order),
        type_code: read_u16(region, pos + 2, order),
        count: read_u32(region, pos + 4, order),
        field: [region[pos + 8], region[pos + 9], region[pos + 10], region[pos + 11]],
    };
    proof {
        lemma_u16_at_range(region@, pos as int, order);
        lemma_u16_at_range(region@, pos + 2, order);
        lemma_u32_at_range(region@, pos + 4, order);
    }
    e
}

} // verus!
