//! Artifact emission: shapes the validated world graph, the
//! non-player-character type catalog and the palette index into the
//! exportable schema. Pure data shaping; the binary codec that writes it
//! out is an external collaborator.

use vstd::prelude::*;

use crate::palette::PaletteIndex;
use crate::validate::graph_valid;
use crate::world::WorldChunk;
use crate::world::WorldGraph;
use crate::world::WorldMapSet;

verus! {

/// One catalog entry for a non-player-character type: its name, its
/// sprite image bytes, and an optional battle-sprite image.
pub struct NpcType {
    pub name: String,
    pub sprite: Vec<u8>,
    pub battle_sprite: Option<Vec<u8>>,
}

/// One emitted palette: its identifier and the raw bottom-layer image
/// bytes. Tile counts are not re-emitted; the client recomputes layout
/// from the atlas itself.
pub struct Palette {
    pub id: u8,
    pub bottom: Vec<u8>,
}

/// The exportable artifact schema.
pub struct SerializedWorld {
    pub chunks: Vec<WorldChunk>,
    pub map_sets: Vec<WorldMapSet>,
    pub npc_types: Vec<NpcType>,
    pub palettes: Vec<Palette>,
}

/// Bundles a validated graph with the catalog and the palettes. Every
/// collection is carried unchanged; every palette's raw bytes are carried
/// byte for byte, in identifier order.
pub fn emit(manager: WorldGraph, npc_types: Vec<NpcType>, palettes: PaletteIndex) -> (r:
    SerializedWorld)
    requires
        graph_valid(manager),
    ensures
        r.chunks == manager.chunks,
        r.map_sets == manager.map_sets,
        r.npc_types == npc_types,
        r.palettes@.len() == palettes.entries@.len(),
        forall|i: int|
            0 <= i < palettes.entries@.len() ==> {
                &&& (#[trigger] r.palettes@[i]).id == palettes.entries@[i].id
                &&& r.palettes@[i].bottom@ == palettes.entries@[i].raw_bytes@
            },
{
    let mut entries = palettes.entries;
    let ghost original = entries@;
    let mut out: Vec<Palette> = Vec::new();
    while entries.len() > 0
        invariant
            out@.len() + entries@.len() == original.len(),
            entries@ == original.skip(out@.len() as int),
            forall|i: int|
                0 <= i < out@.len() ==> {
                    &&& (#[trigger] out@[i]).id == original[i].id
                    &&& out@[i].bottom@ == original[i].raw_bytes@
                },
        decreases entries@.len(),
    {
        let ghost done = out@.len() as int;
        let entry = entries.remove(0);
        proof {
            assert(original.skip(done)[0] == original[done]);
            assert(original.skip(done).remove(0) =~= original.skip(done + 1));
        }
        out.push(Palette { id: entry.id, bottom: entry.raw_bytes });
    }
    SerializedWorld { chunks: manager.chunks, map_sets: manager.map_sets, npc_types, palettes: out }
}

} // verus!
