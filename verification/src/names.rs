//! The names of the tags, taken from the table of the `exif` crate.

use vstd::prelude::*;
use crate::tag::TagContext;
use crate::text::{decimal, push_decimal};

verus! {

/// The description that the `exif` crate's table holds for a tag of a
/// directory of the given kind, or `None` where the table has no such tag.
pub uninterp spec fn tag_description(context: TagContext, id: u16) -> Option<Seq<char>>;

/// The text that the `exif` crate displays for a tag of a directory of
/// the given kind.
pub uninterp spec fn tag_name(context: TagContext, id: u16) -> Seq<char>;

/// Calls `exif::Tag::description` on the tag with the number `id` in the
/// context that stands for the kind of directory. The result depends on
/// nothing but the tag: it is the description in the crate's table, or
/// `None` where the table does not hold the tag.
#[verifier::external_body]
fn table_description(context: TagContext, id: u16) -> (r: Option<String>)
    ensures
        r.is_some() == tag_description(context, id).is_some(),
        r.is_some() ==> r.unwrap()@ == tag_description(context, id).unwrap(),
{
    let context = match context {
        TagContext::Tiff => exif::Context::Tiff,
        TagContext::Exif => exif::Context::Exif,
        TagContext::Gps => exif::Context::Gps,
        TagContext::Interop => exif::Context::Interop,
    };
    exif::Tag(context, id).description().map(String::from)
}

/// Formats the tag with the number `id`, in the context that stands for
/// the kind of directory, through the `Display` impl of `exif::Tag`. The
/// result depends on nothing but the tag; for a tag of the crate's table
/// it is the tag's name in the table.
#[verifier::external_body]
fn table_name(context: TagContext, id: u16) -> (r: String)
    ensures
        r@ == tag_name(context, id),
{
    let context = match context {
        TagContext::Tiff => exif::Context::Tiff,
        TagContext::Exif => exif::Context::Exif,
        TagContext::Gps => exif::Context::Gps,
        TagContext::Interop => exif::Context::Interop,
    };
    exif::Tag(context, id).to_string()
}

/// The label of a tag: its name where the table holds the tag, else its
/// number in decimal digits.
pub open spec fn label_of(context: TagContext, id: u16) -> Seq<char> {
    label_from(id, known_name(context, id))
}

/// The name of a tag that the table holds.
pub open spec fn known_name(context: TagContext, id: u16) -> Option<Seq<char>> {
    if tag_description(context, id).is_some() {
        Some(tag_name(context, id))
    } else {
        None
    }
}

/// The label of a tag with the given name, if it has one.
pub open spec fn label_from(id: u16, name: Option<Seq<char>>) -> Seq<char> {
    match name {
        Some(n) => n,
        None => decimal(id as nat),
    }
}

/// The name of a tag, if the table holds the tag.
pub fn lookup_name(context: TagContext, id: u16) -> (r: Option<String>)
    ensures
        r.is_some() == known_name(context, id).is_some(),
        r.is_some() ==> r.unwrap()@ == known_name(context, id).unwrap(),
{
    match table_description(context, id) {
        Some(_) => Some(table_name(context, id)),
        None => None,
    }
}

/// The label of a tag whose name, if it has one, is `name`: the name
/// itself, or the tag's number in decimal digits.
pub fn label(id: u16, name: Option<String>) -> (r: String)
    ensures
        r@ == label_from(
            id,
            match name {
                Some(n) => Some(n@),
                None => None,
            },
        ),
{
    match name {
        Some(n) => n,
        None => {
            let mut out = String::new();
            push_decimal(&mut out, id as u64);
            out
        },
    }
}

/// The label of a tag: its name where the table holds the tag, else its
/// number in decimal digits.
pub fn tag_label(context: TagContext, id: u16) -> (r: String)
    ensures
        r@ == label_of(context, id),
{
    label(id, lookup_name(context, id))
}

} // verus!
