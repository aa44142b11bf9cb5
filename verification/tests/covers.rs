use std::io::Cursor;

use image::{DynamicImage, ImageOutputFormat, RgbImage};
use ms9k::cover::decode_cover;

#[test]
fn png_bytes_decode_as_a_cover() {
    let img = DynamicImage::ImageRgb8(RgbImage::new(2, 3));
    let mut bytes = Cursor::new(Vec::new());
    img.write_to(&mut bytes, ImageOutputFormat::Png).unwrap();
    let cover = decode_cover(bytes.get_ref()).unwrap();
    assert_eq!(cover.width(), 2);
    assert_eq!(cover.height(), 3);
}

#[test]
fn other_bytes_do_not_decode() {
    assert!(decode_cover(b"not an image").is_none());
    assert!(decode_cover(&[]).is_none());
}
