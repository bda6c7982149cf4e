//! Reading what there is to report of an image: its tags and its pixels'
//! shape.

use vstd::prelude::*;
use crate::codec::{color_of, decode_image, height_of, image_color, image_height, image_width,
    width_of};
use crate::container::{has_no_container, locate, located};
use crate::error::{MetadataError, StripError};
use crate::format::{value_text, DisplayField};
use crate::names::label_of;
use crate::tag::{ResolvedTag, TagView, tag_views};
use crate::walker::{walk, walked};

verus! {

/// The mathematical content of a `DisplayField`.
pub struct FieldView {
    pub name: Seq<char>,
    pub value: Seq<char>,
}

impl View for DisplayField {
    type V = FieldView;

    open spec fn view(&self) -> FieldView {
        FieldView { name: self.name@, value: self.value@ }
    }
}

/// The views of a sequence of fields, in the same order.
pub open spec fn field_views(fields: Seq<DisplayField>) -> Seq<FieldView> {
    Seq::new(fields.len(), |i: int| fields[i]@)
}

/// The field that a tag renders to.
pub open spec fn field_of(tag: TagView) -> FieldView {
    FieldView { name: label_of(tag.context, tag.entry.id), value: value_text(tag.value) }
}

/// The fields that a sequence of tags renders to, in the same order.
pub open spec fn fields_of(tags: Seq<TagView>) -> Seq<FieldView> {
    Seq::new(tags.len(), |i: int| field_of(tags[i]))
}

/// What `read_exif` returns for `data`: the fields of the tags of its
/// container, or why there are none.
pub open spec fn exif_fields(data: Seq<u8>) -> Result<Seq<FieldView>, MetadataError> {
    match located(data) {
        Err(e) => Err(e),
        Ok(container) => match walked(data, container) {
            Some(tags) => Ok(fields_of(tags)),
            None => Err(MetadataError::MalformedContainer),
        },
    }
}

/// Reading is a function of the bytes: byte sources with the same content
/// have the same container, the same tags in the same order, and the same
/// fields.
pub proof fn lemma_reading_is_deterministic(a: Seq<u8>, b: Seq<u8>)
    requires
        a.len() == b.len(),
        forall|i: int| 0 <= i < a.len() ==> a[i] == b[i],
    ensures
        located(a) == located(b),
        forall|container: crate::container::Container|
            walked(a, container) == walked(b, container),
        exif_fields(a) == exif_fields(b),
{
    assert(a =~= b);
}

/// Reading the metadata of a byte source without a container finds
/// nothing: the result is `NotFound`.
pub proof fn lemma_no_container_no_fields(data: Seq<u8>)
    requires
        has_no_container(data),
    ensures
        exif_fields(data) == Err::<Seq<FieldView>, MetadataError>(MetadataError::NotFound),
{
}

/// Renders every tag of a list, in order.
pub fn format_all(tags: &Vec<ResolvedTag>) -> (fields: Vec<DisplayField>)
    ensures
        field_views(fields@) == fields_of(tag_views(tags@)),
{
    let mut fields: Vec<DisplayField> = Vec::new();
    let mut i: usize = 0;
    while i < tags.len()
        invariant
            i <= tags.len(),
            fields@.len() == i,
            forall|j: int| 0 <= j < i ==> (#[trigger] fields@[j])@ == field_of(tags@[j]@),
        decreases tags.len() - i,
    {
        fields.push(crate::format::format(&tags[i]));
        i = i + 1;
    }
    fields
}

/// Reads the metadata of an image: finds its container, walks the
/// directories, and renders every tag, in the order of the walk.
///
/// An image without a container gives `NotFound`, and one with a broken
/// container `MalformedContainer`.
pub fn read_exif(data: &[u8]) -> (r: Result<Vec<DisplayField>, MetadataError>)
    ensures
        match r {
            Ok(fields) => exif_fields(data@) == Ok::<Seq<FieldView>, MetadataError>(
                field_views(fields@),
            ),
            Err(e) => exif_fields(data@) == Err::<Seq<FieldView>, MetadataError>(e),
        },
{
    match locate(data) {
        Err(e) => Err(e),
        Ok(container) => match walk(data, &container) {
            Err(e) => Err(e),
            Ok(tags) => Ok(format_all(&tags)),
        },
    }
}

/// The shape of the pixels of an image.
#[derive(Clone, Debug, PartialEq, Eq)]
pub struct ImageInfo {
    /// The width in pixels.
    pub width: u32,
    /// The height in pixels.
    pub height: u32,
    /// The name of the colour model.
    pub color: String,
}

/// The report is that of the decoded image: its width, its height, and
/// the name of its colour model.
pub open spec fn describes(info: ImageInfo, img: image::DynamicImage) -> bool {
    &&& info.width == image_width(img)
    &&& info.height == image_height(img)
    &&& info.color@ == image_color(img)
}

/// What there is to report of a decoded image: its dimensions and the
/// name of its colour model.
pub fn describe_image(img: &image::DynamicImage) -> (info: ImageInfo)
    ensures
        describes(info, *img),
{
    ImageInfo { width: width_of(img), height: height_of(img), color: color_of(img) }
}

/// Makes the report of an image from what the decoder returned for its
/// bytes: the shape of the decoded pixels, or a `DecodeError`.
pub fn image_info_of(decoded: Result<image::DynamicImage, image::ImageError>) -> (r: Result<
    ImageInfo,
    StripError,
>)
    ensures
        match r {
            Ok(info) => decoded.is_ok() && describes(info, decoded.unwrap()),
            Err(e) => decoded.is_err() && e == StripError::DecodeError,
        },
{
    match decoded {
        Ok(img) => Ok(describe_image(&img)),
        Err(_) => Err(StripError::DecodeError),
    }
}

/// Decodes an image and reports the shape of its pixels.
///
/// The codec decides whether the bytes are an image. Where it decodes
/// them, the report is that of the image it returned; where it does not,
/// the result is a `DecodeError`, and no other error comes.
pub fn read_image_info(data: &[u8]) -> (r: Result<ImageInfo, StripError>)
    ensures
        match r {
            Ok(info) => exists|img: image::DynamicImage| #[trigger] describes(info, img),
            Err(e) => e == StripError::DecodeError,
        },
{
    let decoded = decode_image(data);
    let ghost returned = decoded;
    let r = image_info_of(decoded);
    proof {
        if r.is_ok() {
            assert(describes(r.unwrap(), returned.unwrap()));
        }
    }
    r
}

} // verus!
