use world_compiler::error::CompileError;
use world_compiler::gba_map::get_gba_map;

fn sample_blob() -> Vec<u8> {
    // width 2, height 1: header of 60 bytes plus two 2-byte grid cells.
    let mut bytes = vec![0u8; 64];
    bytes[0] = 2; // width
    bytes[4] = 1; // height
    bytes[8] = 1; // bottom palette reference
    bytes[12] = 2; // top palette reference
    bytes[40] = 7; // music
    // border cells at 52..60
    bytes[52] = 0x34;
    bytes[53] = 0x05; // tile = (5 % 4) * 256 + 0x34 = 308
    bytes[54] = 0x10;
    bytes[55] = 0x00; // tile = 16
    bytes[56] = 0xFF;
    bytes[57] = 0x03; // tile = 3 * 256 + 255 = 1023
    bytes[58] = 0x00;
    bytes[59] = 0x04; // tile = (4 % 4) * 256 = 0
    // grid cells at 60..64
    bytes[60] = 0xFF;
    bytes[61] = 0x07; // tile = (7 % 4) * 256 + 255 = 1023, movement = 7 / 4 = 1
    bytes[62] = 0x01;
    bytes[63] = 0x09; // tile = (9 % 4) * 256 + 1 = 257, movement = 9 / 4 = 2
    bytes
}

#[test]
fn decodes_header_fields_exactly() {
    let map = get_gba_map(&sample_blob()).unwrap();
    assert_eq!(map.width, 2);
    assert_eq!(map.height, 1);
    assert_eq!(map.music, 7);
    assert_eq!(map.palettes, [1, 2]);
}

#[test]
fn decodes_border_cells_with_bit_split() {
    let map = get_gba_map(&sample_blob()).unwrap();
    assert_eq!(map.border_blocks, vec![308, 16, 1023, 0]);
}

#[test]
fn decodes_grid_with_bit_split() {
    let map = get_gba_map(&sample_blob()).unwrap();
    assert_eq!(map.tile_map, vec![1023, 257]);
    assert_eq!(map.movement_map, vec![1, 2]);
}

#[test]
fn truncated_blob_is_a_distinct_error() {
    // The header asks for 2 x 1 cells; cut one byte off.
    let mut bytes = sample_blob();
    bytes.pop();
    match get_gba_map(&bytes) {
        Err(CompileError::TruncatedMap { have, need }) => {
            assert_eq!(have, 63);
            assert_eq!(need, 64);
        },
        other => panic!("expected a truncation error, got {:?}", other.map(|m| m.width)),
    }
}

#[test]
fn blob_shorter_than_header_is_truncated() {
    let bytes = vec![0u8; 59];
    match get_gba_map(&bytes) {
        Err(CompileError::TruncatedMap { have, need }) => {
            assert_eq!(have, 59);
            assert_eq!(need, 60);
        },
        _ => panic!("expected a truncation error"),
    }
}
