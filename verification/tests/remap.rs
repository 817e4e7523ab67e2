use world_compiler::gba_map::fix_tiles;
use world_compiler::gba_map::get_offset;
use world_compiler::gba_map::GbaMap;
use world_compiler::palette::PaletteEntry;
use world_compiler::palette::PaletteIndex;

fn sizes(counts: &[u16]) -> PaletteIndex {
    let mut items = Vec::new();
    for (id, count) in counts.iter().enumerate() {
        items.push(PaletteEntry { id: id as u8, tile_count: *count, raw_bytes: Vec::new() });
    }
    PaletteIndex::build(items).unwrap()
}

fn map_with(palettes: [u8; 2], tiles: Vec<u16>) -> GbaMap {
    let width = tiles.len() as u16;
    let movement = vec![0u8; tiles.len()];
    GbaMap {
        music: 0,
        width,
        height: 1,
        palettes,
        border_blocks: vec![0, 0, 0, 0],
        tile_map: tiles,
        movement_map: movement,
    }
}

#[test]
fn top_offset_sums_palettes_before_the_top_reference() {
    // sizes {0: 4, 1: 6, 2: 3}, palette_refs = [1, 2]: offset = sizes[1] = 6
    let index = sizes(&[4, 6, 3]);
    let map = map_with([1, 2], vec![0]);
    assert_eq!(get_offset(&map, &index), 6);
}

#[test]
fn top_offset_falls_back_to_zero_when_palette_unknown() {
    let index = sizes(&[4, 6, 3]);
    let map = map_with([0, 9], vec![0]);
    assert_eq!(get_offset(&map, &index), 0);
}

#[test]
fn remap_moves_top_layer_indices_by_the_top_offset() {
    // zero_size = 4; tile 5 > 4 is top-layer: 5 + 6 = 11
    let index = sizes(&[4, 6, 3]);
    let mut map = map_with([1, 2], vec![5]);
    fix_tiles(&mut map, &index);
    assert_eq!(map.tile_map, vec![11]);
}

#[test]
fn remap_moves_bottom_layer_indices_by_the_bottom_offset() {
    // palette_refs[0] = 1: bottom offset = sizes[0] = 4; tile 2 <= 4: 2 + 4 = 6
    let index = sizes(&[4, 6, 3]);
    let mut map = map_with([1, 2], vec![2]);
    fix_tiles(&mut map, &index);
    assert_eq!(map.tile_map, vec![6]);
}

#[test]
fn tile_equal_to_pivot_counts_as_bottom_layer() {
    let index = sizes(&[4, 6, 3]);
    let mut map = map_with([1, 2], vec![4]);
    fix_tiles(&mut map, &index);
    assert_eq!(map.tile_map, vec![8]);
}

#[test]
fn bottom_layer_stays_put_when_bottom_palette_is_zero() {
    let index = sizes(&[4, 6, 3]);
    let mut map = map_with([0, 2], vec![3, 5]);
    fix_tiles(&mut map, &index);
    // bottom tile 3 keeps its index; top tile 5 moves by sizes[1] = 6
    assert_eq!(map.tile_map, vec![3, 11]);
}

#[test]
fn border_cells_are_remapped_like_the_grid() {
    let index = sizes(&[4, 6, 3]);
    let mut map = map_with([1, 2], vec![0]);
    map.border_blocks = vec![5, 4, 0, 7];
    fix_tiles(&mut map, &index);
    assert_eq!(map.border_blocks, vec![11, 8, 4, 13]);
}

#[test]
fn movement_classes_are_untouched_by_the_remap() {
    let index = sizes(&[4, 6, 3]);
    let mut map = map_with([1, 2], vec![5, 2]);
    map.movement_map = vec![9, 60];
    fix_tiles(&mut map, &index);
    assert_eq!(map.movement_map, vec![9, 60]);
}
