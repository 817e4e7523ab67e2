use world_compiler::error::CompileError;
use world_compiler::palette::palette_entry_from_image;
use world_compiler::palette::parse_palette_filename;
use world_compiler::palette::PaletteEntry;
use world_compiler::palette::PaletteFileName;
use world_compiler::palette::PaletteIndex;

fn entry(id: u8, tile_count: u16) -> PaletteEntry {
    PaletteEntry { id, tile_count, raw_bytes: vec![id] }
}

// A 32x16-pixel RGB PNG: 2 x 1 tiles of 16x16 pixels.
const PNG_32X16: [u8; 177] = [
    137, 80, 78, 71, 13, 10, 26, 10, 0, 0, 0, 13, 73, 72, 68, 82, 0, 0, 0, 32, 0, 0, 0, 16, 8, 2,
    0, 0, 0, 248, 98, 234, 14, 0, 0, 0, 120, 73, 68, 65, 84, 120, 156, 99, 96, 96, 100, 98, 102,
    97, 101, 99, 231, 224, 228, 226, 230, 225, 229, 227, 23, 16, 20, 18, 22, 17, 21, 19, 151, 144,
    148, 146, 150, 145, 149, 147, 87, 80, 84, 82, 86, 81, 85, 83, 215, 208, 212, 210, 214, 209,
    213, 211, 55, 48, 52, 50, 54, 49, 53, 51, 183, 176, 180, 178, 182, 177, 181, 179, 119, 112,
    116, 114, 118, 113, 117, 115, 247, 240, 244, 242, 246, 241, 245, 243, 15, 8, 12, 10, 14, 9,
    13, 11, 143, 136, 140, 138, 142, 137, 141, 139, 103, 24, 181, 96, 212, 130, 81, 11, 70, 45,
    24, 181, 96, 40, 88, 0, 0, 32, 34, 29, 16, 152, 131, 119, 18, 0, 0, 0, 0, 73, 69, 78, 68,
    174, 66, 96, 130,
];

#[test]
fn palette_filename_parses_the_identifier() {
    assert_eq!(parse_palette_filename(b"Palette0B.png"), PaletteFileName::Id(0));
    assert_eq!(parse_palette_filename(b"Palette13B.png"), PaletteFileName::Id(13));
    assert_eq!(parse_palette_filename(b"Palette255B.png"), PaletteFileName::Id(255));
}

#[test]
fn palette_filename_skips_other_files() {
    assert_eq!(parse_palette_filename(b"readme.txt"), PaletteFileName::Other);
    assert_eq!(parse_palette_filename(b"Palette0T.png"), PaletteFileName::Other);
    assert_eq!(parse_palette_filename(b"palette0B.png"), PaletteFileName::Other);
}

#[test]
fn palette_filename_with_bad_identifier_is_invalid() {
    assert_eq!(parse_palette_filename(b"PaletteXYB.png"), PaletteFileName::Invalid);
    assert_eq!(parse_palette_filename(b"Palette256B.png"), PaletteFileName::Invalid);
    assert_eq!(parse_palette_filename(b"PB.png"), PaletteFileName::Invalid);
    assert_eq!(parse_palette_filename(b"PaletteB.png"), PaletteFileName::Invalid);
}

#[test]
fn index_builds_from_entries_in_any_order() {
    let index = PaletteIndex::build(vec![entry(2, 3), entry(0, 4), entry(1, 6)]).unwrap();
    assert_eq!(index.len(), 3);
    assert_eq!(index.entries[0].tile_count, 4);
    assert_eq!(index.entries[1].tile_count, 6);
    assert_eq!(index.entries[2].tile_count, 3);
    assert_eq!(index.entries[2].raw_bytes, vec![2]);
}

#[test]
fn duplicate_identifier_refuses_to_build() {
    match PaletteIndex::build(vec![entry(0, 4), entry(1, 6), entry(1, 2), entry(2, 1)]) {
        Err(CompileError::DuplicatePalette { id: 1 }) => {},
        other => panic!("expected a duplicate error, got {:?}", other.err()),
    }
}

#[test]
fn sparse_identifiers_refuse_to_build() {
    match PaletteIndex::build(vec![entry(0, 4), entry(2, 3), entry(5, 1)]) {
        Err(CompileError::StrayPalette { .. }) => {},
        other => panic!("expected a stray-identifier error, got {:?}", other.err()),
    }
}

#[test]
fn missing_identifier_refuses_to_build() {
    // three entries with ids 0, 2, 2: identifier 1 has no file
    match PaletteIndex::build(vec![entry(0, 4), entry(2, 6), entry(2, 3)]) {
        Err(CompileError::MissingPalette { id: 1 }) => {},
        other => panic!("expected a missing-palette error, got {:?}", other.err()),
    }
}

#[test]
fn more_entries_than_identifiers_refuse_to_build() {
    let mut items = Vec::new();
    for i in 0..257usize {
        items.push(entry((i % 256) as u8, 1));
    }
    match PaletteIndex::build(items) {
        Err(CompileError::TooManyPalettes) => {},
        other => panic!("expected a too-many error, got {:?}", other.err()),
    }
}

#[test]
fn oversized_atlas_refuses_to_build() {
    match PaletteIndex::build(vec![entry(0, 65000), entry(1, 600)]) {
        Err(CompileError::AtlasTooLarge) => {},
        other => panic!("expected an atlas-size error, got {:?}", other.err()),
    }
}

#[test]
fn sum_range_adds_tile_counts() {
    let index = PaletteIndex::build(vec![entry(0, 4), entry(1, 6), entry(2, 3)]).unwrap();
    assert_eq!(index.sum_range(0, 3), 13);
    assert_eq!(index.sum_range(1, 2), 6);
    assert_eq!(index.sum_range(2, 2), 0);
}

#[test]
fn palette_entry_counts_tiles_from_image_dimensions() {
    let bytes: Vec<u8> = PNG_32X16.to_vec();
    let entry = palette_entry_from_image(9, bytes.clone()).unwrap();
    assert_eq!(entry.id, 9);
    assert_eq!(entry.tile_count, 2);
    assert_eq!(entry.raw_bytes, bytes);
}

#[test]
fn image_with_too_many_tiles_is_fatal() {
    // 65536 x 256 pixels: 4096 x 16 tiles of 16x16 pixels, one past the atlas.
    let img = image::GrayImage::new(65536, 256);
    let mut bytes: Vec<u8> = Vec::new();
    img.write_to(&mut std::io::Cursor::new(&mut bytes), image::ImageFormat::Png).unwrap();
    match palette_entry_from_image(0, bytes) {
        Err(CompileError::PaletteTooLarge) => {},
        other => panic!("expected a size error, got {:?}", other.err()),
    }
}

#[test]
fn undecodable_image_is_fatal() {
    match palette_entry_from_image(0, vec![1, 2, 3, 4]) {
        Err(CompileError::UndecodableImage) => {},
        other => panic!("expected a decode error, got {:?}", other.err()),
    }
}
