use scorpion::error::{MetadataError, StripError};
use scorpion::format::DisplayField;
use scorpion::reader::{
    describe_image, format_all, image_info_of, read_exif, read_image_info, ImageInfo,
};
use scorpion::tag::{DirectoryEntry, ResolvedTag, TagContext, TagValue};

fn field(name: &str, value: &str) -> DisplayField {
    DisplayField { name: String::from(name), value: String::from(value) }
}

/// A little-endian block with three tags in one directory.
fn camera_block() -> Vec<u8> {
    let mut b = vec![0x49, 0x49, 42, 0, 8, 0, 0, 0];
    b.extend_from_slice(&[3, 0]);
    b.extend_from_slice(&[0x0F, 0x01, 2, 0, 6, 0, 0, 0, 50, 0, 0, 0]);
    b.extend_from_slice(&[0x12, 0x01, 3, 0, 1, 0, 0, 0, 6, 0, 0, 0]);
    b.extend_from_slice(&[0x1A, 0x01, 5, 0, 1, 0, 0, 0, 56, 0, 0, 0]);
    b.extend_from_slice(&[0, 0, 0, 0]);
    b.extend_from_slice(b"Acme\0\0");
    b.extend_from_slice(&[72, 0, 0, 0, 1, 0, 0, 0]);
    assert_eq!(b.len(), 64);
    b
}

fn encoded(img: &image::DynamicImage, format: image::ImageFormat) -> Vec<u8> {
    let mut out = std::io::Cursor::new(Vec::new());
    img.write_to(&mut out, format).unwrap();
    out.into_inner()
}

fn sample_image() -> image::DynamicImage {
    let pixels = image::RgbImage::from_fn(5, 3, |x, y| {
        image::Rgb([(x * 40) as u8, (y * 70) as u8, (x + y) as u8])
    });
    image::DynamicImage::ImageRgb8(pixels)
}

/// A JPEG file with the block in a segment right behind the start marker.
fn jpeg_with(block: &[u8]) -> Vec<u8> {
    let plain = encoded(&sample_image(), image::ImageFormat::Jpeg);
    let mut data = plain[..2].to_vec();
    data.extend_from_slice(&[0xFF, 0xE1]);
    data.extend_from_slice(&((block.len() + 8) as u16).to_be_bytes());
    data.extend_from_slice(b"Exif\0\0");
    data.extend_from_slice(block);
    data.extend_from_slice(&plain[2..]);
    data
}

#[test]
fn fields_of_a_jpeg_are_read_in_stored_order() {
    let data = jpeg_with(&camera_block());
    assert_eq!(
        read_exif(&data),
        Ok(vec![field("Make", "Acme"), field("Orientation", "6"), field("XResolution", "72")])
    );
}

#[test]
fn image_without_metadata_is_not_found() {
    let jpeg = encoded(&sample_image(), image::ImageFormat::Jpeg);
    assert_eq!(read_exif(&jpeg), Err(MetadataError::NotFound));
    let png = encoded(&sample_image(), image::ImageFormat::Png);
    assert_eq!(read_exif(&png), Err(MetadataError::NotFound));
    let bmp = encoded(&sample_image(), image::ImageFormat::Bmp);
    assert_eq!(read_exif(&bmp), Err(MetadataError::NotFound));
    let gif = encoded(&sample_image(), image::ImageFormat::Gif);
    assert_eq!(read_exif(&gif), Err(MetadataError::NotFound));
    assert_eq!(read_exif(&[]), Err(MetadataError::NotFound));
}

#[test]
fn broken_block_is_malformed() {
    let mut block = camera_block();
    block[0] = 0x00;
    assert_eq!(read_exif(&jpeg_with(&block)), Err(MetadataError::MalformedContainer));
    let mut block = camera_block();
    block[8] = 0xFF;
    block[9] = 0xFF;
    assert_eq!(read_exif(&jpeg_with(&block)), Err(MetadataError::MalformedContainer));
}

#[test]
fn reading_twice_gives_the_same_fields() {
    let data = jpeg_with(&camera_block());
    let copy = data.clone();
    assert_eq!(read_exif(&data), read_exif(&copy));
    assert_eq!(read_exif(&data), read_exif(&data));
}

#[test]
fn field_names_agree_with_the_exif_crate() {
    let data = jpeg_with(&camera_block());
    let ours = read_exif(&data).unwrap();
    let theirs = exif::Reader::new()
        .read_from_container(&mut std::io::Cursor::new(&data))
        .unwrap();
    let names: Vec<String> = theirs.fields().map(|f| f.tag.to_string()).collect();
    let our_names: Vec<String> = ours.iter().map(|f| f.name.clone()).collect();
    assert_eq!(our_names, names);
}

#[test]
fn every_tag_of_a_list_is_formatted() {
    let tags = vec![
        ResolvedTag {
            context: TagContext::Tiff,
            entry: DirectoryEntry { id: 0x0110, type_code: 2, count: 3, field: *b"X1\0\0" },
            value: TagValue::Ascii(b"X1\0".to_vec()),
        },
        ResolvedTag {
            context: TagContext::Tiff,
            entry: DirectoryEntry { id: 0xF000, type_code: 7, count: 2, field: [1, 2, 0, 0] },
            value: TagValue::Undefined(vec![1, 2]),
        },
    ];
    assert_eq!(format_all(&tags), vec![field("Model", "X1"), field("61440", "2 bytes")]);
    assert_eq!(format_all(&vec![]), vec![]);
}

#[test]
fn image_info_gives_dimensions_and_colour_model() {
    let png = encoded(&sample_image(), image::ImageFormat::Png);
    assert_eq!(
        read_image_info(&png),
        Ok(ImageInfo { width: 5, height: 3, color: String::from("Rgb8") })
    );
    let gray = image::DynamicImage::ImageLuma8(image::GrayImage::new(7, 2));
    assert_eq!(
        read_image_info(&encoded(&gray, image::ImageFormat::Png)),
        Ok(ImageInfo { width: 7, height: 2, color: String::from("L8") })
    );
    assert_eq!(
        describe_image(&gray),
        ImageInfo { width: 7, height: 2, color: String::from("L8") }
    );
    let alpha = image::DynamicImage::ImageRgba8(image::RgbaImage::new(1, 9));
    assert_eq!(
        describe_image(&alpha),
        ImageInfo { width: 1, height: 9, color: String::from("Rgba8") }
    );
}

#[test]
fn image_info_of_a_jpeg_ignores_its_metadata() {
    let data = jpeg_with(&camera_block());
    let info = read_image_info(&data).unwrap();
    assert_eq!((info.width, info.height), (5, 3));
    assert_eq!(info.color, "Rgb8");
}

#[test]
fn undecodable_bytes_give_no_image_info() {
    assert_eq!(read_image_info(b"not an image"), Err(StripError::DecodeError));
    assert_eq!(read_image_info(&[]), Err(StripError::DecodeError));
    let png = encoded(&sample_image(), image::ImageFormat::Png);
    assert_eq!(read_image_info(&png[..20]), Err(StripError::DecodeError));
}

#[test]
fn image_info_follows_the_decoder() {
    let failure = image::ImageError::IoError(std::io::Error::new(
        std::io::ErrorKind::Other,
        "broken",
    ));
    assert_eq!(image_info_of(Err(failure)), Err(StripError::DecodeError));
    assert_eq!(
        image_info_of(Ok(sample_image())),
        Ok(ImageInfo { width: 5, height: 3, color: String::from("Rgb8") })
    );
}
