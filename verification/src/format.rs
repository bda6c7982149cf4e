//! Rendering a tag for display.
//!
//! A string shows its text without the terminating zero bytes. Bytes
//! without structure show as their number. Every other value shows its
//! numbers, with a comma and a space between neighbours; a rational
//! number shows as numerator, slash, denominator, and as the numerator
//! alone where the denominator is one.

use vstd::prelude::*;
use crate::names::{label, label_from, label_of, lookup_name};
use crate::tag::{ResolvedTag, TagValue, ValueView};
use crate::text::{decimal, joined, latin1, lemma_joined_step, push_decimal, push_latin1,
    push_separator, push_signed, separator, signed_decimal};

verus! {

/// The name of a tag and the text of its value.
#[derive(Clone, Debug, PartialEq, Eq)]
pub struct DisplayField {
    /// The name of the tag, or its number where it has no name.
    pub name: String,
    /// The text of the value.
    pub value: String,
}

/// The bytes of a string without the zero bytes at its end.
pub open spec fn trim_nuls(bytes: Seq<u8>) -> Seq<u8>
    decreases bytes.len(),
{
    if bytes.len() > 0 && bytes.last() == 0 {
        trim_nuls(bytes.drop_last())
    } else {
        bytes
    }
}

/// The text of a rational number.
pub open spec fn rational_text(num: int, den: int) -> Seq<char> {
    if den == 1 {
        signed_decimal(num)
    } else {
        signed_decimal(num) + seq!['/'] + signed_decimal(den)
    }
}

/// The text behind the number of bytes of a value without structure.
pub open spec fn bytes_suffix() -> Seq<char> {
    seq![' ', 'b', 'y', 't', 'e', 's']
}

/// The numbers of a value of an integer type; empty for any other value.
pub open spec fn numbers_of(v: ValueView) -> Seq<int> {
    match v {
        ValueView::Byte(s) => Seq::new(s.len(), |i: int| s[i] as int),
        ValueView::Short(s) => Seq::new(s.len(), |i: int| s[i] as int),
        ValueView::Long(s) => Seq::new(s.len(), |i: int| s[i] as int),
        ValueView::SByte(s) => Seq::new(s.len(), |i: int| s[i] as int),
        ValueView::SShort(s) => Seq::new(s.len(), |i: int| s[i] as int),
        ValueView::SLong(s) => Seq::new(s.len(), |i: int| s[i] as int),
        _ => Seq::empty(),
    }
}

/// The pairs of numerator and denominator of a value of a rational type;
/// empty for any other value.
pub open spec fn ratios_of(v: ValueView) -> Seq<(int, int)> {
    match v {
        ValueView::Rational(s) => Seq::new(s.len(), |i: int| (s[i].0 as int, s[i].1 as int)),
        ValueView::SRational(s) => Seq::new(s.len(), |i: int| (s[i].0 as int, s[i].1 as int)),
        _ => Seq::empty(),
    }
}

/// The texts of the numbers of a list.
pub open spec fn number_texts(numbers: Seq<int>) -> Seq<Seq<char>> {
    Seq::new(numbers.len(), |i: int| signed_decimal(numbers[i]))
}

/// The texts of the rational numbers of a list.
pub open spec fn ratio_texts(ratios: Seq<(int, int)>) -> Seq<Seq<char>> {
    Seq::new(ratios.len(), |i: int| rational_text(ratios[i].0, ratios[i].1))
}

/// The text of a value.
pub open spec fn value_text(v: ValueView) -> Seq<char> {
    match v {
        ValueView::Ascii(bytes) => latin1(trim_nuls(bytes)),
        ValueView::Undefined(bytes) => decimal(bytes.len()) + bytes_suffix(),
        ValueView::Unknown(bytes) => decimal(bytes.len()) + bytes_suffix(),
        ValueView::Rational(_) => joined(ratio_texts(ratios_of(v))),
        ValueView::SRational(_) => joined(ratio_texts(ratios_of(v))),
        _ => joined(number_texts(numbers_of(v))),
    }
}

/// The number of values of an integer type; 0 for any other value.
fn number_count(value: &TagValue) -> (n: usize)
    ensures
        n == numbers_of(value@).len(),
{
    match value {
        TagValue::Byte(v) => v.len(),
        TagValue::Short(v) => v.len(),
        TagValue::Long(v) => v.len(),
        TagValue::SByte(v) => v.len(),
        TagValue::SShort(v) => v.len(),
        TagValue::SLong(v) => v.len(),
        _ => 0,
    }
}

/// The number at index `i` of a value of an integer type.
fn number_at(value: &TagValue, i: usize) -> (n: i64)
    requires
        i < numbers_of(value@).len(),
    ensures
        n == numbers_of(value@)[i as int],
{
    match value {
        TagValue::Byte(v) => v[i] as i64,
        TagValue::Short(v) => v[i] as i64,
        TagValue::Long(v) => v[i] as i64,
        TagValue::SByte(v) => v[i] as i64,
        TagValue::SShort(v) => v[i] as i64,
        TagValue::SLong(v) => v[i] as i64,
        _ => 0,
    }
}

/// The number of values of a rational type; 0 for any other value.
fn ratio_count(value: &TagValue) -> (n: usize)
    ensures
        n == ratios_of(value@).len(),
{
    match value {
        TagValue::Rational(v) => v.len(),
        TagValue::SRational(v) => v.len(),
        _ => 0,
    }
}

/// The pair at index `i` of a value of a rational type.
fn ratio_at(value: &TagValue, i: usize) -> (r: (i64, i64))
    requires
        i < ratios_of(value@).len(),
    ensures
        r.0 == ratios_of(value@)[i as int].0,
        r.1 == ratios_of(value@)[i as int].1,
{
    match value {
        TagValue::Rational(v) => (v[i].0 as i64, v[i].1 as i64),
        TagValue::SRational(v) => (v[i].0 as i64, v[i].1 as i64),
        _ => (0, 1),
    }
}

/// The text of a string value.
fn ascii_text(bytes: &Vec<u8>) -> (out: String)
    ensures
        out@ == latin1(trim_nuls(bytes@)),
{
    let mut end: usize = bytes.len();
    assert(bytes@.subrange(0, end as int) =~= bytes@);
    while end > 0 && bytes[end - 1] == 0
        invariant
            end <= bytes.len(),
            trim_nuls(bytes@) == trim_nuls(bytes@.subrange(0, end as int)),
        decreases end,
    {
        assert(bytes@.subrange(0, end as int).drop_last() =~= bytes@.subrange(0, end - 1));
        end = end - 1;
    }
    let mut out = String::new();
    push_latin1(&mut out, bytes, end);
    out
}

/// The text of a value without structure: the number of its bytes.
fn length_text(len: usize) -> (out: String)
    ensures
        out@ == decimal(len as nat) + bytes_suffix(),
{
    let mut out = String::new();
    push_decimal(&mut out, len as u64);
    out.push(' ');
    out.push('b');
    out.push('y');
    out.push('t');
    out.push('e');
    out.push('s');
    out
}

/// The text of a value of an integer type.
fn numbers_text(value: &TagValue) -> (out: String)
    ensures
        out@ == joined(number_texts(numbers_of(value@))),
{
    let n: usize = number_count(value);
    let ghost items = number_texts(numbers_of(value@));
    let mut out = String::new();
    let mut i: usize = 0;
    while i < n
        invariant
            i <= n,
            n == numbers_of(value@).len(),
            items == number_texts(numbers_of(value@)),
            out@ == joined(items.take(i as int)),
        decreases n - i,
    {
        proof {
            lemma_joined_step(items, i as int);
        }
        let ghost before = out@;
        if i > 0 {
            push_separator(&mut out);
        }
        push_signed(&mut out, number_at(value, i));
        assert(out@ =~= if i == 0 {
            items[0]
        } else {
            before + separator() + items[i as int]
        });
        i = i + 1;
    }
    assert(items.take(n as int) =~= items);
    out
}

/// Appends the text of a rational number.
fn push_ratio(out: &mut String, num: i64, den: i64)
    ensures
        final(out)@ == old(out)@ + rational_text(num as int, den as int),
{
    push_signed(out, num);
    if den != 1 {
        out.push('/');
        push_signed(out, den);
        assert(out@ =~= old(out)@ + (signed_decimal(num as int) + seq!['/'] + signed_decimal(
            den as int,
        )));
    }
}

/// The text of a value of a rational type.
fn ratios_text(value: &TagValue) -> (out: String)
    ensures
        out@ == joined(ratio_texts(ratios_of(value@))),
{
    let n: usize = ratio_count(value);
    let ghost items = ratio_texts(ratios_of(value@));
    let mut out = String::new();
    let mut i: usize = 0;
    while i < n
        invariant
            i <= n,
            n == ratios_of(value@).len(),
            items == ratio_texts(ratios_of(value@)),
            out@ == joined(items.take(i as int)),
        decreases n - i,
    {
        proof {
            lemma_joined_step(items, i as int);
        }
        let ghost before = out@;
        if i > 0 {
            push_separator(&mut out);
        }
        let pair = ratio_at(value, i);
        push_ratio(&mut out, pair.0, pair.1);
        assert(out@ =~= if i == 0 {
            items[0]
        } else {
            before + separator() + items[i as int]
        });
        i = i + 1;
    }
    assert(items.take(n as int) =~= items);
    out
}

/// The text of a value.
pub fn format_value(value: &TagValue) -> (out: String)
    ensures
        out@ == value_text(value@),
{
    match value {
        TagValue::Ascii(bytes) => ascii_text(bytes),
        TagValue::Undefined(bytes) => length_text(bytes.len()),
        TagValue::Unknown(bytes) => length_text(bytes.len()),
        TagValue::Rational(_) => ratios_text(value),
        TagValue::SRational(_) => ratios_text(value),
        _ => numbers_text(value),
    }
}

/// Renders a tag whose name, if it has one, is `name`.
///
/// The field's name is `name`, or the tag's number in decimal digits; its
/// value is the text of the tag's value.
pub fn format_named(tag: &ResolvedTag, name: Option<String>) -> (f: DisplayField)
    ensures
        f.name@ == label_from(
            tag.entry.id,
            match name {
                Some(n) => Some(n@),
                None => None,
            },
        ),
        f.value@ == value_text(tag@.value),
{
    DisplayField { name: label(tag.entry.id, name), value: format_value(&tag.value) }
}

/// Renders a tag for display. Every tag renders to something.
///
/// The field's name is the tag's name where the table of names holds the
/// tag, else its number in decimal digits; its value is the text of the
/// tag's value.
pub fn format(tag: &ResolvedTag) -> (f: DisplayField)
    ensures
        f.name@ == label_of(tag.context, tag.entry.id),
        f.value@ == value_text(tag@.value),
{
    format_named(tag, lookup_name(tag.context, tag.entry.id))
}

} // verus!
