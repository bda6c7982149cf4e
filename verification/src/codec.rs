//! The image codec: decoding and encoding pixels through the `image` crate.
//!
//! A decoded image is a value of that crate and opaque here. What the
//! library knows of it are its dimensions and the name of its colour
//! model, each a function of the image.

use vstd::prelude::*;
use crate::filter::ascii_lower;

verus! {

/// A decoded image: `image::DynamicImage`.
#[verifier::external_type_specification]
#[verifier::external_body]
pub struct ExDynamicImage(image::DynamicImage);

/// An error of the codec: `image::ImageError`.
#[verifier::external_type_specification]
#[verifier::external_body]
pub struct ExImageError(image::ImageError);

/// An encoded image format: `image::ImageFormat`.
#[verifier::external_type_specification]
#[verifier::external_body]
pub struct ExImageFormat(image::ImageFormat);

/// The format that `image::ImageFormat::from_extension` gives for an
/// extension, if it knows the extension.
pub uninterp spec fn format_of(ext: Seq<char>) -> Option<image::ImageFormat>;

/// The bytes that `image::DynamicImage::write_to` writes for an image in
/// a format, or `None` where it fails.
pub uninterp spec fn encoded(img: image::DynamicImage, format: image::ImageFormat) -> Option<
    Seq<u8>,
>;

/// The number of bytes of the buffer that holds the pixels of an image.
pub uninterp spec fn image_byte_len(img: image::DynamicImage) -> usize;

/// The number of bytes of one pixel of an image.
pub uninterp spec fn image_bytes_per_pixel(img: image::DynamicImage) -> u8;

/// The width of a decoded image, in pixels.
pub uninterp spec fn image_width(img: image::DynamicImage) -> u32;

/// The height of a decoded image, in pixels.
pub uninterp spec fn image_height(img: image::DynamicImage) -> u32;

/// The name of the colour model of a decoded image.
pub uninterp spec fn image_color(img: image::DynamicImage) -> Seq<char>;

/// Calls `image::load_from_memory`, which guesses the format from the
/// content and decodes the pixels. The crate lets a program register
/// decoders of its own, so the outcome is not a function of the bytes
/// alone, and nothing is stated of it.
#[verifier::external_body]
pub(crate) fn decode_image(data: &[u8]) -> Result<image::DynamicImage, image::ImageError> {
    image::load_from_memory(data)
}

/// Calls `image::DynamicImage::width`: the width of the image.
#[verifier::external_body]
pub(crate) fn width_of(img: &image::DynamicImage) -> (w: u32)
    ensures
        w == image_width(*img),
{
    img.width()
}

/// Calls `image::DynamicImage::height`: the height of the image.
#[verifier::external_body]
pub(crate) fn height_of(img: &image::DynamicImage) -> (h: u32)
    ensures
        h == image_height(*img),
{
    img.height()
}

/// Calls `image::DynamicImage::color` and formats the colour type with its
/// `Debug` impl: the name of the variant.
#[verifier::external_body]
pub(crate) fn color_of(img: &image::DynamicImage) -> (s: String)
    ensures
        s@ == image_color(*img),
{
    format!("{:?}", img.color())
}

/// The buffer of the image holds its pixels and nothing more: its length
/// is the width times the height times the bytes of one pixel.
pub open spec fn is_packed(img: image::DynamicImage) -> bool {
    image_byte_len(img) == image_width(img) * image_height(img) * image_bytes_per_pixel(img)
}

/// The extension in lower-case ASCII letters.
pub open spec fn lowered(ext: Seq<char>) -> Seq<char> {
    Seq::new(ext.len(), |i: int| ascii_lower(ext[i]))
}

/// The extensions that stand for a format, in lower case.
pub open spec fn format_extensions() -> Seq<Seq<char>> {
    seq![
        seq!['a', 'v', 'i', 'f'],
        seq!['j', 'p', 'g'],
        seq!['j', 'p', 'e', 'g'],
        seq!['j', 'f', 'i', 'f'],
        seq!['p', 'n', 'g'],
        seq!['a', 'p', 'n', 'g'],
        seq!['g', 'i', 'f'],
        seq!['w', 'e', 'b', 'p'],
        seq!['t', 'i', 'f'],
        seq!['t', 'i', 'f', 'f'],
        seq!['t', 'g', 'a'],
        seq!['d', 'd', 's'],
        seq!['b', 'm', 'p'],
        seq!['i', 'c', 'o'],
        seq!['h', 'd', 'r'],
        seq!['e', 'x', 'r'],
        seq!['p', 'b', 'm'],
        seq!['p', 'a', 'm'],
        seq!['p', 'p', 'm'],
        seq!['p', 'g', 'm'],
        seq!['p', 'n', 'm'],
        seq!['f', 'f'],
        seq!['q', 'o', 'i'],
    ]
}

/// The extension stands for a format, whatever the case of its letters.
pub open spec fn has_format(ext: Seq<char>) -> bool {
    format_extensions().contains(lowered(ext))
}

/// Calls `image::DynamicImage::as_bytes` and takes the length of the
/// slice: the number of bytes of the image's buffer.
#[verifier::external_body]
pub(crate) fn byte_len_of(img: &image::DynamicImage) -> (n: usize)
    ensures
        n == image_byte_len(*img),
{
    img.as_bytes().len()
}

/// Calls `image::DynamicImage::color` and `image::ColorType::bytes_per_pixel`
/// on what it returns: the number of bytes of one pixel.
#[verifier::external_body]
pub(crate) fn bytes_per_pixel_of(img: &image::DynamicImage) -> (n: u8)
    ensures
        n == image_bytes_per_pixel(*img),
{
    img.color().bytes_per_pixel()
}

/// Calls `image::ImageFormat::from_extension`: the format that an
/// extension stands for. The answer depends on the extension alone, and
/// there is one exactly for the extensions of the crate's table, in
/// letters of either case.
#[verifier::external_body]
pub(crate) fn format_for(ext: &str) -> (r: Option<image::ImageFormat>)
    ensures
        r == format_of(ext@),
        r.is_some() == has_format(ext@),
{
    image::ImageFormat::from_extension(ext)
}

/// Calls `image::DynamicImage::write_to` on a buffer in memory: the image
/// encoded in the given format, or the codec's error. The encoders panic
/// on a buffer that holds more than the pixels, so such an image is left
/// out. The outcome depends on the image and the format alone.
#[verifier::external_body]
pub(crate) fn encode_image(img: &image::DynamicImage, format: image::ImageFormat) -> (r: Result<
    Vec<u8>,
    image::ImageError,
>)
    requires
        is_packed(*img),
    ensures
        r.is_ok() == encoded(*img, format).is_some(),
        r.is_ok() ==> r.unwrap()@ == encoded(*img, format).unwrap(),
{
    let mut out = std::io::Cursor::new(Vec::new());
    img.write_to(&mut out, format).map(|_| out.into_inner())
}

} // verus!
