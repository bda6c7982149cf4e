//! Producing a copy of an image without its metadata.
//!
//! The pixels are decoded from the bytes of the source, whatever its
//! extension says, and encoded again in the format that the extension of
//! the copy stands for. Nothing but pixels goes into the copy. The caller
//! reads the source and stores the copy.

use vstd::prelude::*;
use crate::codec::{byte_len_of, bytes_per_pixel_of, decode_image, encode_image, encoded,
    format_for, format_of, height_of, is_packed, width_of};
use crate::container::{has_no_container, locate};
use crate::error::{MetadataError, StripError};
use crate::naming::{file_name, output_extension, output_name, plan_output};

verus! {

/// The stripped copy of an image: where to store it, and its bytes.
#[derive(Clone, Debug, PartialEq, Eq)]
pub struct Stripped {
    /// The name of the file of the copy.
    pub path: String,
    /// The encoded copy.
    pub bytes: Vec<u8>,
}

/// The extension of the stripped copy of the file at `path`.
pub open spec fn copy_extension(path: Seq<char>) -> Seq<char> {
    output_extension(file_name(path).unwrap())
}

/// What stripping returns, with the copy as its name and its bytes.
pub open spec fn outcome_of(r: Result<Stripped, StripError>) -> Result<
    (Seq<char>, Seq<u8>),
    StripError,
> {
    match r {
        Ok(copy) => Ok((copy.path@, copy.bytes@)),
        Err(e) => Err(e),
    }
}

/// What comes of the name of the copy and the bytes that the encoder
/// wrote, if it wrote any: the copy, unless a metadata container can be
/// found in the bytes.
pub open spec fn finished(name: Seq<char>, written: Option<Seq<u8>>) -> Result<
    (Seq<char>, Seq<u8>),
    StripError,
> {
    match written {
        Some(bytes) => if has_no_container(bytes) {
            Ok((name, bytes))
        } else {
            Err(StripError::WriteError)
        },
        None => Err(StripError::WriteError),
    }
}

/// What stripping a decoded image gives: the name derived from `path` and
/// the image encoded in the format of the copy's extension.
///
/// A path without a file name is an `InvalidPath`. An extension that
/// stands for no format is a `WriteError`, and so are an image whose
/// buffer holds more than its pixels, an encoding that fails, and an
/// encoding in which a metadata container can be found.
pub open spec fn stripped(path: Seq<char>, img: image::DynamicImage) -> Result<
    (Seq<char>, Seq<u8>),
    StripError,
> {
    match output_name(path) {
        None => Err(StripError::InvalidPath),
        Some(name) => match format_of(copy_extension(path)) {
            None => Err(StripError::WriteError),
            Some(format) => if is_packed(img) {
                finished(name, encoded(img, format))
            } else {
                Err(StripError::WriteError)
            },
        },
    }
}

/// Makes the result of stripping from the name of the copy and what the
/// encoder returned.
///
/// The copy is handed out exactly when the encoder succeeded and no
/// metadata container can be found in what it wrote; every other case is
/// a `WriteError`.
pub fn finish_strip(name: String, encoded: Result<Vec<u8>, image::ImageError>) -> (r: Result<
    Stripped,
    StripError,
>)
    ensures
        outcome_of(r) == finished(
            name@,
            match encoded {
                Ok(bytes) => Some(bytes@),
                Err(_) => None,
            },
        ),
{
    match encoded {
        Ok(bytes) => {
            match locate(bytes.as_slice()) {
                Err(MetadataError::NotFound) => Ok(Stripped { path: name, bytes }),
                _ => Err(StripError::WriteError),
            }
        },
        Err(_) => Err(StripError::WriteError),
    }
}

/// Whether the buffer of the image holds its pixels and nothing more.
fn packed(img: &image::DynamicImage) -> (r: bool)
    ensures
        r == is_packed(*img),
{
    let width: u128 = width_of(img) as u128;
    let height: u128 = height_of(img) as u128;
    let unit: u128 = bytes_per_pixel_of(img) as u128;
    assert(width * height * unit <= 0xFFFF_FFFF * 0xFFFF_FFFF * 0xFF) by (nonlinear_arith)
        requires
            width <= 0xFFFF_FFFF,
            height <= 0xFFFF_FFFF,
            unit <= 0xFF,
    ;
    assert(width * height <= 0xFFFF_FFFF * 0xFFFF_FFFF) by (nonlinear_arith)
        requires
            width <= 0xFFFF_FFFF,
            height <= 0xFFFF_FFFF,
    ;
    byte_len_of(img) as u128 == width * height * unit
}

/// Strips a decoded image that was read from the file at `path`.
///
/// The copy has the name derived from `path` and holds the image encoded
/// in the format of its extension. The result is the copy exactly when
/// the path has a file name, the extension stands for a format, the
/// image's buffer holds its pixels and nothing more, the encoder
/// succeeds, and no metadata container can be found in what it wrote.
pub fn strip_image(path: &str, img: &image::DynamicImage) -> (r: Result<Stripped, StripError>)
    ensures
        outcome_of(r) == stripped(path@, *img),
{
    match plan_output(path) {
        None => Err(StripError::InvalidPath),
        Some(plan) => {
            match format_for(plan.1.as_str()) {
                None => Err(StripError::WriteError),
                Some(format) => {
                    if packed(img) {
                        finish_strip(plan.0, encode_image(img, format))
                    } else {
                        Err(StripError::WriteError)
                    }
                },
            }
        },
    }
}

/// Makes the result of stripping the file at `path` from what the decoder
/// returned for its bytes.
///
/// A failed decoding is a `DecodeError`, whatever the path. Of a decoded
/// image the result is that of `strip_image`.
pub fn strip_decoded(path: &str, decoded: Result<image::DynamicImage, image::ImageError>) -> (r:
    Result<Stripped, StripError>)
    ensures
        outcome_of(r) == match decoded {
            Ok(img) => stripped(path@, img),
            Err(_) => Err(StripError::DecodeError),
        },
{
    match decoded {
        Err(_) => Err(StripError::DecodeError),
        Ok(img) => strip_image(path, &img),
    }
}

/// Strips the image with the bytes `data` that was read from the file at
/// `path`.
///
/// The codec decides whether the bytes are an image; where they are not,
/// the result is a `DecodeError`. Any other result is that of stripping
/// the image that the codec returned: a copy that is handed out has the
/// name derived from `path`, and no metadata container can be found in
/// it; an `InvalidPath` comes exactly for a path without a file name.
pub fn strip(path: &str, data: &[u8]) -> (r: Result<Stripped, StripError>)
    ensures
        r != Err::<Stripped, StripError>(StripError::DecodeError) ==> exists|
            img: image::DynamicImage,
        | outcome_of(r) == #[trigger] stripped(path@, img),
        match r {
            Ok(copy) => output_name(path@) == Some(copy.path@) && has_no_container(copy.bytes@),
            Err(StripError::DecodeError) => true,
            Err(StripError::InvalidPath) => output_name(path@).is_none(),
            Err(StripError::WriteError) => output_name(path@).is_some(),
        },
{
    let decoded = decode_image(data);
    let ghost returned = decoded;
    let r = strip_decoded(path, decoded);
    proof {
        if returned.is_ok() {
            assert(outcome_of(r) == stripped(path@, returned.unwrap()));
        }
    }
    r
}

} // verus!
