use world_compiler::image::Image;

// The same 32x16-pixel RGB PNG used by the palette tests.
const PNG_32X16: [u8; 177] = [
    137, 80, 78, 71, 13, 10, 26, 10, 0, 0, 0, 13, 73, 72, 68, 82, 0, 0, 0, 32, 0, 0, 0, 16, 8, 2,
    0, 0, 0, 248, 98, 234, 14, 0, 0, 0, 120, 73, 68, 65, 84, 120, 156, 99, 96, 96, 100, 98, 102,
    97, 101, 99, 231, 224, 228, 226, 230, 225, 229, 227, 23, 16, 20, 18, 22, 17, 21, 19, 151, 144,
    148, 146, 150, 145, 149, 147, 87, 80, 84, 82, 86, 81, 85, 83, 215, 208, 212, 210, 214, 209,
    213, 211, 55, 48, 52, 50, 54, 49, 53, 51, 183, 176, 180, 178, 182, 177, 181, 179, 119, 112,
    116, 114, 118, 113, 117, 115, 247, 240, 244, 242, 246, 241, 245, 243, 15, 8, 12, 10, 14, 9,
    13, 11, 143, 136, 140, 138, 142, 137, 141, 139, 103, 24, 181, 96, 212, 130, 81, 11, 70, 45,
    24, 181, 96, 40, 88, 0, 0, 32, 34, 29, 16, 152, 131, 119, 18, 0, 0, 0, 0, 73, 69, 78, 68,
    174, 66, 96, 130,
];

#[test]
fn decodes_png_dimensions_and_rgba_bytes() {
    let img = Image::from_file_with_format(&PNG_32X16, Some(image::ImageFormat::Png)).unwrap();
    assert_eq!(img.width(), 32);
    assert_eq!(img.height(), 16);
    assert_eq!(img.bytes.len(), 32 * 16 * 4);
}

#[test]
fn guesses_the_format_when_none_is_given() {
    let img = Image::from_file_with_format(&PNG_32X16, None).unwrap();
    assert_eq!(img.width(), 32);
    assert_eq!(img.height(), 16);
}

#[test]
fn undecodable_bytes_give_no_image() {
    assert!(Image::from_file_with_format(&[0, 1, 2, 3], Some(image::ImageFormat::Png)).is_none());
    assert!(Image::from_file_with_format(&[], None).is_none());
}
