use world_compiler::emit::emit;
use world_compiler::emit::NpcType;
use world_compiler::map::Border;
use world_compiler::map::Coordinate;
use world_compiler::map::WorldMap;
use world_compiler::palette::PaletteEntry;
use world_compiler::palette::PaletteIndex;
use world_compiler::validate::verify_world;
use world_compiler::world::WorldChunk;
use world_compiler::world::WorldGraph;

fn minimal_map(name: &str) -> WorldMap {
    WorldMap {
        name: name.to_string(),
        music: 0,
        width: 1,
        height: 1,
        tile_map: vec![0],
        border: Border { tiles: vec![0, 0, 0, 0], size: 2 },
        movement_map: vec![0],
        fly_position: None,
        warps: Vec::new(),
        npcs: Vec::new(),
        scripts: Vec::new(),
        wild: None,
    }
}

#[test]
fn artifact_carries_palette_bytes_byte_for_byte() {
    let mut graph = WorldGraph::new();
    graph.insert_chunk(WorldChunk {
        index: 0,
        coords: Coordinate { x: 0, y: 0 },
        connections: Vec::new(),
        map: minimal_map("town"),
    });
    assert!(verify_world(&graph).is_ok());

    let palettes = PaletteIndex::build(vec![
        PaletteEntry { id: 1, tile_count: 2, raw_bytes: vec![9, 8, 7] },
        PaletteEntry { id: 0, tile_count: 4, raw_bytes: vec![1, 2, 3, 4] },
    ])
    .unwrap();
    let npc_types = vec![NpcType {
        name: "guard".to_string(),
        sprite: vec![5, 5],
        battle_sprite: None,
    }];

    let artifact = emit(graph, npc_types, palettes);
    assert_eq!(artifact.chunks.len(), 1);
    assert_eq!(artifact.npc_types.len(), 1);
    assert_eq!(artifact.palettes.len(), 2);
    assert_eq!(artifact.palettes[0].id, 0);
    assert_eq!(artifact.palettes[0].bottom, vec![1, 2, 3, 4]);
    assert_eq!(artifact.palettes[1].id, 1);
    assert_eq!(artifact.palettes[1].bottom, vec![9, 8, 7]);
}
