//! Map descriptors, per-map resources and the map assembler: the logical
//! shapes parsed out of descriptor files, and the pure combination of a
//! decoded, remapped grid with its resources into one world map.

use vstd::prelude::*;

use crate::error::CompileError;
use crate::gba_map::GbaMap;

verus! {

/// A grid coordinate of the open world.
#[derive(Debug, PartialEq, Eq, Structural, Clone, Copy)]
pub struct Coordinate {
    pub x: i32,
    pub y: i32,
}

/// Where a warp leads: a chunk of the open-world grid, or one member of a
/// named map set.
pub enum WarpTarget {
    Chunk { index: u16 },
    MapSet { id: String, index: u16 },
}

/// A navigable transition out of a map.
pub struct WarpEntry {
    pub destination: WarpTarget,
    pub spawn: Coordinate,
}

/// A non-player-character placement: the identifier index that keys it
/// inside its map, its display name, and its raw descriptor bytes.
pub struct Npc {
    pub index: u8,
    pub name: String,
    pub data: Vec<u8>,
}

/// A world script, carried through as its raw descriptor bytes.
pub struct Script {
    pub data: Vec<u8>,
}

/// A wild-encounter table: the default table, or one loaded from a
/// secondary descriptor, carried as its raw bytes.
pub enum WildTable {
    Default,
    Loaded(Vec<u8>),
}

/// A map's wild-encounter entry: the tiles encounters happen on, and the
/// encounter table.
pub struct WildEntry {
    pub tiles: Option<Vec<u16>>,
    pub table: WildTable,
}

/// The wild-encounter declaration of a map descriptor.
pub struct SerializedWildEntry {
    pub encounter_type: String,
    pub tiles: Option<Vec<u16>>,
}

/// A map-set descriptor: the set identifier and the member directories in
/// declared order (the order that fixes warp target indices).
pub struct SerializedMapSet {
    pub identifier: String,
    pub dirs: Vec<String>,
}

/// Optional per-map settings.
pub struct SerializedMapSettings {
    pub fly_position: Option<Coordinate>,
}

/// The per-map part of a descriptor: name, legacy map file, settings and
/// wild-encounter declaration.
pub struct MapConfig {
    pub name: String,
    pub file: String,
    pub settings: SerializedMapSettings,
    pub wild: Option<SerializedWildEntry>,
}

/// A chunk descriptor: one piece of the open-world grid.
pub struct SerializedChunkMap {
    pub config: MapConfig,
    pub piece_index: u16,
    pub coords: Coordinate,
    pub connections: Vec<u16>,
}

/// A whole map descriptor as read from disk: at most one of the two
/// shapes.
pub struct SerializedMap {
    pub chunk: Option<SerializedChunkMap>,
    pub map_set: Option<SerializedMapSet>,
}

/// A descriptor resolved to exactly one of the two shapes.
pub enum MapDescriptor {
    Chunk(SerializedChunkMap),
    MapSet(SerializedMapSet),
}

/// Resolves a descriptor once, at parse time: a chunk shape wins, then a
/// map-set shape; a descriptor with neither is a fatal configuration
/// error.
pub fn classify_descriptor(descriptor: SerializedMap) -> (r: Result<MapDescriptor, CompileError>)
    ensures
        descriptor.chunk matches Some(c) ==> r == Ok::<MapDescriptor, CompileError>(
            MapDescriptor::Chunk(c),
        ),
        descriptor.chunk is None ==> (descriptor.map_set matches Some(s) ==> r == Ok::<
            MapDescriptor,
            CompileError,
        >(MapDescriptor::MapSet(s))),
        descriptor.chunk is None && descriptor.map_set is None ==> r == Err::<
            MapDescriptor,
            CompileError,
        >(CompileError::BadDescriptor),
{
    match descriptor.chunk {
        Some(chunk) => Ok(MapDescriptor::Chunk(chunk)),
        None => match descriptor.map_set {
            Some(set) => Ok(MapDescriptor::MapSet(set)),
            None => Err(CompileError::BadDescriptor),
        },
    }
}

/// The reserved map identifier that routes a warp to the open world
/// rather than to a map set.
pub open spec fn spec_world_id() -> Seq<char> {
    "world"@
}

/// Whether a warp's destination map identifier names the open world.
pub fn is_world_id(map_id: &String) -> (r: bool)
    ensures
        r == (map_id@ == spec_world_id()),
{
    let world: String = "world".to_owned();
    *map_id == world
}

/// Classifies a warp destination: the reserved identifier names a chunk of
/// the open world, any other identifier names a map set.
pub fn classify_warp_destination(map_id: String, map_index: u16) -> (r: WarpTarget)
    ensures
        map_id@ == spec_world_id() ==> r == (WarpTarget::Chunk { index: map_index }),
        map_id@ != spec_world_id() ==> r == (WarpTarget::MapSet { id: map_id, index: map_index }),
{
    if is_world_id(&map_id) {
        WarpTarget::Chunk { index: map_index }
    } else {
        WarpTarget::MapSet { id: map_id, index: map_index }
    }
}

/// The encounter-type tag that consults the on-disk encounter table.
pub open spec fn spec_original_tag() -> Seq<char> {
    "original"@
}

/// Whether a wild-encounter declaration wants the on-disk table read.
pub fn wants_encounter_table(wild: &SerializedWildEntry) -> (r: bool)
    ensures
        r == (wild.encounter_type@ == spec_original_tag()),
{
    let tag: String = "original".to_owned();
    wild.encounter_type == tag
}

/// The table a wild entry ends up with: the loaded bytes only when the
/// declaration asks for the on-disk table and the bytes could be read;
/// every other case degrades to the default table.
pub open spec fn spec_wild_table(
    encounter_type: Seq<char>,
    table_bytes: Option<Vec<u8>>,
    table: WildTable,
) -> bool {
    match table_bytes {
        Some(bytes) => {
            if encounter_type == spec_original_tag() {
                table matches WildTable::Loaded(b) && b@ == bytes@
            } else {
                table is Default
            }
        },
        None => table is Default,
    }
}

/// Builds a map's wild-encounter entry from its declaration and the bytes
/// of the on-disk table, if any were readable. An unrecognized encounter
/// type or an unreadable table degrades to the default table; a map
/// without a declaration has no entry.
pub fn load_wild_entry(wild: Option<SerializedWildEntry>, table_bytes: Option<Vec<u8>>) -> (r:
    Option<WildEntry>)
    ensures
        wild is None ==> r is None,
        wild matches Some(w) ==> {
            &&& r is Some
            &&& (r matches Some(e) ==> {
                &&& e.tiles == w.tiles
                &&& spec_wild_table(w.encounter_type@, table_bytes, e.table)
            })
        },
{
    match wild {
        None => None,
        Some(w) => {
            let table = if wants_encounter_table(&w) {
                match table_bytes {
                    Some(bytes) => WildTable::Loaded(bytes),
                    None => WildTable::Default,
                }
            } else {
                WildTable::Default
            };
            Some(WildEntry { tiles: w.tiles, table })
        },
    }
}

/// No two placements of a map share an identifier index.
pub open spec fn npc_indices_unique(s: Seq<Npc>) -> bool {
    forall|a: int, b: int| 0 <= a < b < s.len() ==> (#[trigger] s[a]).index != (#[trigger] s[b]).index
}

/// Inserts a placement keyed by its identifier index: a placement with
/// the same index is replaced, any other is kept.
pub fn insert_npc(npcs: &mut Vec<Npc>, npc: Npc)
    requires
        npc_indices_unique(old(npcs)@),
    ensures
        npc_indices_unique(final(npcs)@),
        (exists|k: int| 0 <= k < old(npcs)@.len() && (#[trigger] old(npcs)@[k]).index == npc.index)
            ==> final(npcs)@ == old(npcs)@.update(
            choose|k: int|
                0 <= k < old(npcs)@.len() && (#[trigger] old(npcs)@[k]).index == npc.index,
            npc,
        ),
        (forall|k: int| 0 <= k < old(npcs)@.len() ==> (#[trigger] old(npcs)@[k]).index != npc.index)
            ==> final(npcs)@ == old(npcs)@.push(npc),
{
    let n = npcs.len();
    let mut j: usize = 0;
    while j < n
        invariant
            n == npcs@.len(),
            j <= n,
            npcs@ == old(npcs)@,
            npc_indices_unique(npcs@),
            forall|k: int| 0 <= k < j ==> (#[trigger] npcs@[k]).index != npc.index,
        decreases n - j,
    {
        if npcs[j].index == npc.index {
            proof {
                let k = choose|k: int|
                    0 <= k < old(npcs)@.len() && (#[trigger] old(npcs)@[k]).index == npc.index;
                assert(old(npcs)@[j as int].index == npc.index);
                if k != j as int {
                    // uniqueness forces the found position to be the witness
                    if k < j as int {
                        assert(old(npcs)@[k].index != old(npcs)@[j as int].index);
                    } else {
                        assert(old(npcs)@[j as int].index != old(npcs)@[k].index);
                    }
                }
            }
            npcs.set(j, npc);
            return ;
        }
        j = j + 1;
    }
    npcs.push(npc);
}

/// The border pattern of an assembled map: its tiles and the side length
/// of the square they form.
pub struct Border {
    pub tiles: Vec<u16>,
    pub size: u8,
}

/// One assembled map: the remapped grid plus every per-map resource.
pub struct WorldMap {
    pub name: String,
    pub music: u8,
    pub width: u16,
    pub height: u16,
    pub tile_map: Vec<u16>,
    pub border: Border,
    pub movement_map: Vec<u8>,
    pub fly_position: Option<Coordinate>,
    pub warps: Vec<WarpEntry>,
    pub npcs: Vec<Npc>,
    pub scripts: Vec<Script>,
    pub wild: Option<WildEntry>,
}

/// The exact integer square root, when one exists.
pub fn perfect_sqrt(n: usize) -> (r: Option<usize>)
    requires
        n <= 0xFFFF_FFFF,
    ensures
        r matches Some(s) ==> s * s == n,
        r is None ==> forall|s: int| s >= 0 ==> #[trigger] (s * s) != n,
{
    let mut s: u64 = 0;
    let target = n as u64;
    while s * s < target
        invariant
            target == n,
            target <= 0xFFFF_FFFF,
            s <= 65536,
            s * s <= 0x1_0000_0000,
            forall|t: int| 0 <= t < s ==> #[trigger] (t * t) != n,
        decreases target - s,
    {
        proof {
            assert(s as int >= 65536 ==> (s as int) * (s as int) >= 0x1_0000_0000)
                by (nonlinear_arith);
            assert(s as int + 1 <= 65536 ==> (s as int + 1) * (s as int + 1) <= 0x1_0000_0000)
                by (nonlinear_arith);
            assert(s as int == 0 || s as int <= (s as int) * (s as int)) by (nonlinear_arith);
        }
        s = s + 1;
    }
    if s * s == target {
        Some(s as usize)
    } else {
        proof {
            assert forall|t: int| t >= 0 implies #[trigger] (t * t) != n by {
                if t >= s {
                    assert(t >= s as int && s as int >= 0 ==> t * t >= (s as int) * (s as int))
                        by (nonlinear_arith);
                }
            }
        }
        None
    }
}

/// Combines one decoded, remapped grid with the descriptor metadata and
/// the loaded per-map resources into one world map. Fails only when the
/// border tiles form no square of side length at most 255.
pub fn assemble_map(
    config: MapConfig,
    gba_map: GbaMap,
    warps: Vec<WarpEntry>,
    npcs: Vec<Npc>,
    scripts: Vec<Script>,
    wild: Option<WildEntry>,
) -> (r: Result<WorldMap, CompileError>)
    requires
        gba_map.border_blocks@.len() <= 0xFFFF_FFFF,
    ensures
        r is Ok <==> exists|s: int|
            0 <= s <= 255 && #[trigger] (s * s) == gba_map.border_blocks@.len(),
        r matches Ok(m) ==> {
            &&& m.name == config.name
            &&& m.music == gba_map.music
            &&& m.width == gba_map.width
            &&& m.height == gba_map.height
            &&& m.tile_map == gba_map.tile_map
            &&& m.border.tiles == gba_map.border_blocks
            &&& m.border.size as int * m.border.size as int == gba_map.border_blocks@.len()
            &&& m.movement_map == gba_map.movement_map
            &&& m.fly_position == config.settings.fly_position
            &&& m.warps == warps
            &&& m.npcs == npcs
            &&& m.scripts == scripts
            &&& m.wild == wild
        },
        r is Err ==> r == Err::<WorldMap, CompileError>(CompileError::BadBorder),
{
    let side = match perfect_sqrt(gba_map.border_blocks.len()) {
        Some(s) => {
            if s > 255 {
                proof {
                    assert forall|t: int| 0 <= t <= 255 implies #[trigger] (t * t) != gba_map
                        .border_blocks@.len() by {
                        assert(0 <= t && t < s as int ==> t * t < (s as int) * (s as int))
                            by (nonlinear_arith);
                    }
                }
                return Err(CompileError::BadBorder);
            }
            s as u8
        },
        None => {
            return Err(CompileError::BadBorder);
        },
    };
    Ok(
        WorldMap {
            name: config.name,
            music: gba_map.music,
            width: gba_map.width,
            height: gba_map.height,
            tile_map: gba_map.tile_map,
            border: Border { tiles: gba_map.border_blocks, size: side },
            movement_map: gba_map.movement_map,
            fly_position: config.settings.fly_position,
            warps,
            npcs,
            scripts,
            wild,
        },
    )
}

} // verus!
