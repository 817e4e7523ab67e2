use world_compiler::error::CompileError;
use world_compiler::gba_map::GbaMap;
use world_compiler::map::assemble_map;
use world_compiler::map::classify_descriptor;
use world_compiler::map::classify_warp_destination;
use world_compiler::map::insert_npc;
use world_compiler::map::load_wild_entry;
use world_compiler::map::perfect_sqrt;
use world_compiler::map::Coordinate;
use world_compiler::map::MapConfig;
use world_compiler::map::MapDescriptor;
use world_compiler::map::Npc;
use world_compiler::map::SerializedChunkMap;
use world_compiler::map::SerializedMap;
use world_compiler::map::SerializedMapSet;
use world_compiler::map::SerializedMapSettings;
use world_compiler::map::SerializedWildEntry;
use world_compiler::map::WarpTarget;
use world_compiler::map::WildTable;

fn config(name: &str) -> MapConfig {
    MapConfig {
        name: name.to_string(),
        file: "map.bin".to_string(),
        settings: SerializedMapSettings { fly_position: None },
        wild: None,
    }
}

fn chunk_descriptor(name: &str) -> SerializedChunkMap {
    SerializedChunkMap {
        config: config(name),
        piece_index: 3,
        coords: Coordinate { x: 1, y: -2 },
        connections: vec![4, 5],
    }
}

#[test]
fn descriptor_with_chunk_shape_is_a_chunk() {
    let descriptor = SerializedMap { chunk: Some(chunk_descriptor("town")), map_set: None };
    match classify_descriptor(descriptor).unwrap() {
        MapDescriptor::Chunk(c) => {
            assert_eq!(c.piece_index, 3);
            assert_eq!(c.config.name, "town");
        },
        _ => panic!("expected a chunk"),
    }
}

#[test]
fn descriptor_with_set_shape_is_a_map_set() {
    let descriptor = SerializedMap {
        chunk: None,
        map_set: Some(SerializedMapSet {
            identifier: "house".to_string(),
            dirs: vec!["01".to_string()],
        }),
    };
    match classify_descriptor(descriptor).unwrap() {
        MapDescriptor::MapSet(s) => assert_eq!(s.identifier, "house"),
        _ => panic!("expected a map set"),
    }
}

#[test]
fn descriptor_with_neither_shape_is_fatal() {
    let descriptor = SerializedMap { chunk: None, map_set: None };
    assert_eq!(classify_descriptor(descriptor).err(), Some(CompileError::BadDescriptor));
}

#[test]
fn warp_to_the_world_names_a_chunk() {
    match classify_warp_destination("world".to_string(), 7) {
        WarpTarget::Chunk { index } => assert_eq!(index, 7),
        _ => panic!("expected a chunk destination"),
    }
}

#[test]
fn warp_to_any_other_identifier_names_a_map_set() {
    match classify_warp_destination("gym".to_string(), 2) {
        WarpTarget::MapSet { id, index } => {
            assert_eq!(id, "gym");
            assert_eq!(index, 2);
        },
        _ => panic!("expected a map-set destination"),
    }
}

#[test]
fn wild_entry_keeps_the_loaded_table_for_the_original_tag() {
    let wild = SerializedWildEntry { encounter_type: "original".to_string(), tiles: Some(vec![20]) };
    let entry = load_wild_entry(Some(wild), Some(vec![9, 9])).unwrap();
    assert_eq!(entry.tiles, Some(vec![20]));
    match entry.table {
        WildTable::Loaded(bytes) => assert_eq!(bytes, vec![9, 9]),
        WildTable::Default => panic!("expected the loaded table"),
    }
}

#[test]
fn wild_entry_defaults_for_unknown_tags_or_unreadable_tables() {
    let wild = SerializedWildEntry { encounter_type: "original".to_string(), tiles: None };
    let entry = load_wild_entry(Some(wild), None).unwrap();
    assert!(matches!(entry.table, WildTable::Default));

    let wild = SerializedWildEntry { encounter_type: "other".to_string(), tiles: None };
    let entry = load_wild_entry(Some(wild), Some(vec![1])).unwrap();
    assert!(matches!(entry.table, WildTable::Default));

    assert!(load_wild_entry(None, None).is_none());
}

#[test]
fn npc_insert_replaces_by_identifier_index() {
    let mut npcs: Vec<Npc> = Vec::new();
    insert_npc(&mut npcs, Npc { index: 4, name: "a".to_string(), data: vec![1] });
    insert_npc(&mut npcs, Npc { index: 2, name: "b".to_string(), data: vec![2] });
    insert_npc(&mut npcs, Npc { index: 4, name: "c".to_string(), data: vec![3] });
    assert_eq!(npcs.len(), 2);
    assert_eq!(npcs[0].name, "c");
    assert_eq!(npcs[1].name, "b");
}

#[test]
fn perfect_squares_have_exact_roots() {
    assert_eq!(perfect_sqrt(0), Some(0));
    assert_eq!(perfect_sqrt(4), Some(2));
    assert_eq!(perfect_sqrt(9), Some(3));
    assert_eq!(perfect_sqrt(65536), Some(256));
    assert_eq!(perfect_sqrt(2), None);
    assert_eq!(perfect_sqrt(8), None);
}

#[test]
fn assembled_map_carries_the_grid_and_resources() {
    let gba = GbaMap {
        music: 5,
        width: 2,
        height: 1,
        palettes: [0, 1],
        border_blocks: vec![7, 8, 9, 10],
        tile_map: vec![11, 12],
        movement_map: vec![1, 0],
    };
    let map = assemble_map(config("town"), gba, Vec::new(), Vec::new(), Vec::new(), None).unwrap();
    assert_eq!(map.name, "town");
    assert_eq!(map.music, 5);
    assert_eq!(map.tile_map, vec![11, 12]);
    assert_eq!(map.border.tiles, vec![7, 8, 9, 10]);
    assert_eq!(map.border.size, 2);
    assert_eq!(map.movement_map, vec![1, 0]);
}

#[test]
fn non_square_border_refuses_to_assemble() {
    let gba = GbaMap {
        music: 0,
        width: 1,
        height: 1,
        palettes: [0, 0],
        border_blocks: vec![1, 2, 3],
        tile_map: vec![0],
        movement_map: vec![0],
    };
    let r = assemble_map(config("bad"), gba, Vec::new(), Vec::new(), Vec::new(), None);
    assert_eq!(r.err(), Some(CompileError::BadBorder));
}
