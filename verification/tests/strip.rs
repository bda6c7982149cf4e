use scorpion::container::locate;
use scorpion::error::{MetadataError, StripError};
use scorpion::reader::read_exif;
use scorpion::strip::{finish_strip, strip, strip_decoded, strip_image, Stripped};

fn encode_as(img: &image::DynamicImage, format: image::ImageFormat) -> Vec<u8> {
    let mut out = std::io::Cursor::new(Vec::new());
    img.write_to(&mut out, format).unwrap();
    out.into_inner()
}

fn picture() -> image::DynamicImage {
    let pixels = image::RgbImage::from_fn(6, 4, |x, y| {
        image::Rgb([(x * 37) as u8, (y * 61) as u8, (x * y) as u8])
    });
    image::DynamicImage::ImageRgb8(pixels)
}

fn make_block() -> Vec<u8> {
    let mut b = vec![0x4D, 0x4D, 0, 42, 0, 0, 0, 8];
    b.extend_from_slice(&[0, 1]);
    b.extend_from_slice(&[0x01, 0x0F, 0, 2, 0, 0, 0, 6, 0, 0, 0, 26]);
    b.extend_from_slice(&[0, 0, 0, 0]);
    b.extend_from_slice(b"Acme\0\0");
    b
}

fn checksum(bytes: &[u8]) -> u32 {
    let mut crc = 0xFFFF_FFFFu32;
    for &b in bytes {
        crc ^= b as u32;
        for _ in 0..8 {
            crc = if crc & 1 == 1 { (crc >> 1) ^ 0xEDB8_8320 } else { crc >> 1 };
        }
    }
    !crc
}

/// A PNG file with the block in a chunk right behind the header chunk.
fn png_with_metadata() -> Vec<u8> {
    let plain = encode_as(&picture(), image::ImageFormat::Png);
    let block = make_block();
    let mut chunk = b"eXIf".to_vec();
    chunk.extend_from_slice(&block);
    let mut data = plain[..33].to_vec();
    data.extend_from_slice(&(block.len() as u32).to_be_bytes());
    data.extend_from_slice(&chunk);
    data.extend_from_slice(&checksum(&chunk).to_be_bytes());
    data.extend_from_slice(&plain[33..]);
    data
}

/// A JPEG file with the block in a segment right behind the start marker.
fn jpeg_with_metadata() -> Vec<u8> {
    let plain = encode_as(&picture(), image::ImageFormat::Jpeg);
    let block = make_block();
    let mut data = plain[..2].to_vec();
    data.extend_from_slice(&[0xFF, 0xE1]);
    data.extend_from_slice(&((block.len() + 8) as u16).to_be_bytes());
    data.extend_from_slice(b"Exif\0\0");
    data.extend_from_slice(&block);
    data.extend_from_slice(&plain[2..]);
    data
}

#[test]
fn png_with_metadata_has_a_make() {
    let fields = read_exif(&png_with_metadata()).unwrap();
    assert_eq!(fields.len(), 1);
    assert_eq!(fields[0].name, "Make");
    assert_eq!(fields[0].value, "Acme");
}

#[test]
fn stripped_png_keeps_pixels_and_loses_metadata() {
    let source = png_with_metadata();
    let copy = strip("img.png", &source).unwrap();
    assert_eq!(copy.path, "img_no_exif.png");
    assert_eq!(locate(&copy.bytes), Err(MetadataError::NotFound));
    assert_eq!(read_exif(&copy.bytes), Err(MetadataError::NotFound));
    let before = image::load_from_memory(&source).unwrap();
    let after = image::load_from_memory(&copy.bytes).unwrap();
    assert_eq!(before.width(), after.width());
    assert_eq!(before.height(), after.height());
    assert_eq!(before.color(), after.color());
    assert_eq!(before.as_bytes(), after.as_bytes());
    assert_eq!(after, picture());
    assert_eq!(image::guess_format(&copy.bytes).unwrap(), image::ImageFormat::Png);
}

#[test]
fn stripped_jpeg_loses_metadata() {
    let source = jpeg_with_metadata();
    assert_eq!(read_exif(&source).map(|f| f.len()), Ok(1));
    let copy = strip("shots/photo.JPG", &source).unwrap();
    assert_eq!(copy.path, "photo_no_exif.JPG");
    assert_eq!(read_exif(&copy.bytes), Err(MetadataError::NotFound));
    let after = image::load_from_memory(&copy.bytes).unwrap();
    assert_eq!((after.width(), after.height()), (6, 4));
    assert_eq!(image::guess_format(&copy.bytes).unwrap(), image::ImageFormat::Jpeg);
}

#[test]
fn stripped_bmp_and_gif_keep_their_format() {
    let bmp = encode_as(&picture(), image::ImageFormat::Bmp);
    let copy = strip("a.bmp", &bmp).unwrap();
    assert_eq!(copy.path, "a_no_exif.bmp");
    assert_eq!(image::guess_format(&copy.bytes).unwrap(), image::ImageFormat::Bmp);
    assert_eq!(image::load_from_memory(&copy.bytes).unwrap().to_rgb8(), picture().to_rgb8());
    let gif = encode_as(&picture(), image::ImageFormat::Gif);
    let copy = strip("a.gif", &gif).unwrap();
    assert_eq!(copy.path, "a_no_exif.gif");
    assert_eq!(image::guess_format(&copy.bytes).unwrap(), image::ImageFormat::Gif);
}

#[test]
fn format_is_read_from_the_content_and_written_by_the_extension() {
    // a PNG file under the name of a bitmap
    let source = png_with_metadata();
    let copy = strip("img.bmp", &source).unwrap();
    assert_eq!(copy.path, "img_no_exif.bmp");
    assert_eq!(image::guess_format(&copy.bytes).unwrap(), image::ImageFormat::Bmp);
    assert_eq!(image::load_from_memory(&copy.bytes).unwrap().to_rgb8(), picture().to_rgb8());
}

#[test]
fn missing_extension_is_written_as_jpeg() {
    let source = png_with_metadata();
    let copy = strip("img", &source).unwrap();
    assert_eq!(copy.path, "img_no_exif.jpg");
    assert_eq!(image::guess_format(&copy.bytes).unwrap(), image::ImageFormat::Jpeg);
}

#[test]
fn undecodable_source_is_a_decode_error() {
    assert_eq!(strip("img.png", b"these are no pixels"), Err(StripError::DecodeError));
    assert_eq!(strip("img.png", &[]), Err(StripError::DecodeError));
    let source = png_with_metadata();
    assert_eq!(strip("img.png", &source[..40]), Err(StripError::DecodeError));
    // the path is not looked at before the bytes
    assert_eq!(strip("..", b"these are no pixels"), Err(StripError::DecodeError));
}

#[test]
fn path_without_file_name_is_an_invalid_path() {
    let source = png_with_metadata();
    assert_eq!(strip("..", &source), Err(StripError::InvalidPath));
    assert_eq!(strip("", &source), Err(StripError::InvalidPath));
    assert_eq!(strip("/", &source), Err(StripError::InvalidPath));
    assert_eq!(strip("photos/..", &source), Err(StripError::InvalidPath));
    assert_eq!(strip_image("..", &picture()), Err(StripError::InvalidPath));
}

#[test]
fn unknown_extension_is_a_write_error() {
    let source = png_with_metadata();
    assert_eq!(strip("img.xyz", &source), Err(StripError::WriteError));
    assert_eq!(strip("img.", &source), Err(StripError::WriteError));
    assert_eq!(strip_image("img.txt", &picture()), Err(StripError::WriteError));
}

#[test]
fn format_without_encoder_is_a_write_error() {
    // the extension is known, but this build of the codec cannot write it
    assert_eq!(strip_image("img.webp", &picture()), Err(StripError::WriteError));
}

#[test]
fn decoded_image_is_stripped_under_the_derived_name() {
    let copy = strip_image("dir/img.png", &picture()).unwrap();
    assert_eq!(copy.path, "img_no_exif.png");
    assert_eq!(image::load_from_memory(&copy.bytes).unwrap(), picture());
}

#[test]
fn encoding_with_a_container_is_refused() {
    let clean = vec![1u8, 2, 3, 4];
    assert_eq!(
        finish_strip(String::from("a_no_exif.png"), Ok(clean.clone())),
        Ok(Stripped { path: String::from("a_no_exif.png"), bytes: clean })
    );
    assert_eq!(
        finish_strip(String::from("a_no_exif.jpg"), Ok(jpeg_with_metadata())),
        Err(StripError::WriteError)
    );
    // a container with nothing sound in it counts as well
    let broken = vec![0xFF, 0xD8, 0xFF, 0xE1, 0, 10, b'E', b'x', b'i', b'f', 0, 0, 1, 2];
    assert_eq!(
        finish_strip(String::from("a_no_exif.jpg"), Ok(broken)),
        Err(StripError::WriteError)
    );
    // the bytes of the signature where no container can stand do not count
    let pixels = b"BM..Exif\0\0II*\0\x08\0\0\0\0\0\0\0\0\0".to_vec();
    assert_eq!(
        finish_strip(String::from("a_no_exif.bmp"), Ok(pixels.clone())),
        Ok(Stripped { path: String::from("a_no_exif.bmp"), bytes: pixels })
    );
    assert_eq!(
        finish_strip(String::from("a_no_exif.jpg"), Ok(png_with_metadata())),
        Err(StripError::WriteError)
    );
}

#[test]
fn failed_encoding_is_a_write_error() {
    let failure = image::ImageError::IoError(std::io::Error::new(
        std::io::ErrorKind::Other,
        "no room",
    ));
    assert_eq!(finish_strip(String::from("a_no_exif.png"), Err(failure)), Err(StripError::WriteError));
}

#[test]
fn stripping_a_stripped_copy_changes_nothing_more() {
    let source = png_with_metadata();
    let once = strip("img.png", &source).unwrap();
    let twice = strip("img.png", &once.bytes).unwrap();
    assert_eq!(once, twice);
}

#[test]
fn failed_decoding_is_a_decode_error_whatever_the_path() {
    let failure = || {
        Err(image::ImageError::IoError(std::io::Error::new(std::io::ErrorKind::Other, "broken")))
    };
    assert_eq!(strip_decoded("img.png", failure()), Err(StripError::DecodeError));
    assert_eq!(strip_decoded("..", failure()), Err(StripError::DecodeError));
    assert_eq!(strip_decoded("img.xyz", failure()), Err(StripError::DecodeError));
}

#[test]
fn decoded_image_goes_on_to_be_stripped() {
    let copy = strip_decoded("img.png", Ok(picture())).unwrap();
    assert_eq!(copy.path, "img_no_exif.png");
    assert_eq!(image::load_from_memory(&copy.bytes).unwrap(), picture());
    assert_eq!(strip_decoded("..", Ok(picture())), Err(StripError::InvalidPath));
    assert_eq!(strip_decoded("img.xyz", Ok(picture())), Err(StripError::WriteError));
}

#[test]
fn image_with_a_buffer_longer_than_its_pixels_is_a_write_error() {
    let padded = image::RgbImage::from_raw(1, 1, vec![0; 4]).unwrap();
    let img = image::DynamicImage::ImageRgb8(padded);
    assert_eq!(strip_image("a.png", &img), Err(StripError::WriteError));
    assert_eq!(strip_image("a.jpg", &img), Err(StripError::WriteError));
    assert_eq!(strip_image("a.bmp", &img), Err(StripError::WriteError));
    assert_eq!(strip_decoded("a.png", Ok(img)), Err(StripError::WriteError));
    let exact = image::RgbImage::from_raw(1, 1, vec![9, 8, 7]).unwrap();
    let img = image::DynamicImage::ImageRgb8(exact);
    assert_eq!(strip_image("a.png", &img).map(|c| c.path), Ok(String::from("a_no_exif.png")));
}

#[test]
fn bitmap_whose_pixels_spell_the_signature_is_stripped() {
    let mut raw = b"Exif\0\0II*\0\x08\0\0\0".to_vec();
    raw.extend_from_slice(&[0; 10]);
    let img = image::DynamicImage::ImageRgb8(image::RgbImage::from_raw(8, 1, raw).unwrap());
    let copy = strip_image("a.bmp", &img).unwrap();
    assert_eq!(copy.path, "a_no_exif.bmp");
    assert_eq!(image::load_from_memory(&copy.bytes).unwrap().to_rgb8(), img.to_rgb8());
}

#[test]
fn extension_counts_in_either_case() {
    assert_eq!(strip_image("a.PNG", &picture()).map(|c| c.path), Ok(String::from("a_no_exif.PNG")));
    assert_eq!(strip_image("a.Jpeg", &picture()).map(|c| c.path), Ok(String::from("a_no_exif.Jpeg")));
}
