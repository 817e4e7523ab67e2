//! Legacy fixed-layout binary map decoder.
//!
//! The legacy format packs a 10-bit tile id and a 6-bit movement class into
//! one 16-bit little-endian cell: `tile = low + (high mod 4) * 256`,
//! `movement = high div 4`. Fixed offsets: `width` at byte 0, `height` at
//! byte 4, the two palette references at bytes 8 and 12, `music` at byte 40,
//! four border cells from byte 52, and the tile grid from byte 60.

use vstd::prelude::*;

use crate::error::CompileError;
use crate::palette::MAX_ATLAS_TILES;
use crate::palette::PaletteEntry;
use crate::palette::PaletteIndex;
use crate::palette::lemma_sum_nonneg;
use crate::palette::lemma_sum_split;
use crate::palette::sum_counts;

verus! {

/// A decoded legacy map: dimensions, music cue, the two palette references,
/// four border tiles, and the parallel tile-id / movement-class grids.
pub struct GbaMap {
    pub music: u8,
    pub width: u16,
    pub height: u16,
    pub palettes: [u8; 2],
    pub border_blocks: Vec<u16>,
    pub tile_map: Vec<u16>,
    pub movement_map: Vec<u8>,
}

/// The tile id packed into one legacy cell: the low byte plus the two lowest
/// bits of the high byte as the 256s place.
pub open spec fn cell_tile(lo: u8, hi: u8) -> u16 {
    ((hi as int % 4) * 256 + lo as int) as u16
}

/// The movement class packed into one legacy cell: the six highest bits of
/// the high byte.
pub open spec fn cell_movement(hi: u8) -> u8 {
    (hi as int / 4) as u8
}

/// How many bytes a legacy blob must hold: the 60-byte header plus two bytes
/// per grid cell. Meaningful only once the blob covers the header.
pub open spec fn spec_need(bytes: Seq<u8>) -> int {
    if bytes.len() < 60 {
        60
    } else {
        60 + 2 * (bytes[0] as int) * (bytes[4] as int)
    }
}

/// A legacy blob decodes iff it holds every byte its own header demands.
pub open spec fn decode_ok(bytes: Seq<u8>) -> bool {
    bytes.len() >= spec_need(bytes)
}

impl GbaMap {
    /// Well-formedness of a freshly decoded map: parallel grids of length
    /// `width * height`, four border cells, and every tile id inside the
    /// 10-bit range of the legacy cell format.
    pub open spec fn wf(self) -> bool {
        &&& self.tile_map@.len() == self.width as int * self.height as int
        &&& self.movement_map@.len() == self.tile_map@.len()
        &&& self.border_blocks@.len() == 4
        &&& forall|i: int| 0 <= i < self.tile_map@.len() ==> self.tile_map@[i] < 1024
        &&& forall|i: int| 0 <= i < 4 ==> self.border_blocks@[i] < 1024
    }
}

/// Decodes a legacy fixed-layout binary blob, reproducing the exact bit
/// split of the 16-bit cells; a truncated blob is a distinct error, never an
/// out-of-bounds fault.
pub fn get_gba_map(bytes: &Vec<u8>) -> (r: Result<GbaMap, CompileError>)
    ensures
        r is Ok <==> decode_ok(bytes@),
        r matches Ok(m) ==> {
            &&& m.wf()
            &&& m.width == bytes@[0] as u16
            &&& m.height == bytes@[4] as u16
            &&& m.palettes@[0] == bytes@[8]
            &&& m.palettes@[1] == bytes@[12]
            &&& m.music == bytes@[40]
            &&& forall|i: int|
                0 <= i < 4 ==> m.border_blocks@[i] == cell_tile(
                    bytes@[52 + 2 * i],
                    bytes@[53 + 2 * i],
                )
            &&& forall|i: int|
                0 <= i < m.tile_map@.len() ==> m.tile_map@[i] == cell_tile(
                    bytes@[60 + 2 * i],
                    bytes@[61 + 2 * i],
                )
            &&& forall|i: int|
                0 <= i < m.movement_map@.len() ==> m.movement_map@[i] == cell_movement(
                    bytes@[61 + 2 * i],
                )
        },
        r matches Err(e) ==> e == (CompileError::TruncatedMap {
            have: bytes@.len() as usize,
            need: spec_need(bytes@) as usize,
        }),
{
    if bytes.len() < 60 {
        return Err(CompileError::TruncatedMap { have: bytes.len(), need: 60 });
    }
    let width = bytes[0] as u16;
    let height = bytes[4] as u16;
    assert(width as int * height as int <= 65025) by (nonlinear_arith)
        requires
            width <= 255,
            height <= 255,
    ;
    let size: usize = width as usize * height as usize;
    let need: usize = 60 + 2 * size;
    proof {
        assert(2 * (bytes@[0] as int) * (bytes@[4] as int) == 2 * size) by (nonlinear_arith)
            requires
                size == (bytes@[0] as int) * (bytes@[4] as int),
        ;
    }
    if bytes.len() < need {
        return Err(CompileError::TruncatedMap { have: bytes.len(), need });
    }

    let music = bytes[40];
    let palettes: [u8; 2] = [bytes[8], bytes[12]];

    let mut border_blocks: Vec<u16> = Vec::new();
    for x in 0..4usize
        invariant
            bytes@.len() >= 60,
            border_blocks@.len() == x,
            forall|i: int|
                0 <= i < x ==> border_blocks@[i] == cell_tile(
                    bytes@[52 + 2 * i],
                    bytes@[53 + 2 * i],
                ),
    {
        let location = 52 + x * 2;
        let tile_num = (bytes[location + 1] % 4) as u16 * 256 + bytes[location] as u16;
        border_blocks.push(tile_num);
    }

    let mut tile_map: Vec<u16> = Vec::new();
    let mut movement_map: Vec<u8> = Vec::new();
    for x in 0..size
        invariant
            size <= 65025,
            size == width as int * height as int,
            bytes@.len() >= 60 + 2 * size,
            tile_map@.len() == x,
            movement_map@.len() == x,
            forall|i: int|
                0 <= i < x ==> tile_map@[i] == cell_tile(bytes@[60 + 2 * i], bytes@[61 + 2 * i]),
            forall|i: int| 0 <= i < x ==> tile_map@[i] < 1024,
            forall|i: int| 0 <= i < x ==> movement_map@[i] == cell_movement(bytes@[61 + 2 * i]),
    {
        let location = 60 + x * 2;
        let tile_num = (bytes[location + 1] % 4) as u16 * 256 + bytes[location] as u16;
        let move_num = bytes[location + 1] / 4;
        tile_map.push(tile_num);
        movement_map.push(move_num);
    }

    Ok(
        GbaMap {
            music,
            width,
            height,
            palettes,
            border_blocks,
            tile_map,
            movement_map,
        },
    )
}

/// Cumulative tile count of every palette preceding the map's top-layer
/// palette in global ordering; zero when the reference names a palette
/// beyond the known set (the recoverable fallback).
pub open spec fn top_offset(entries: Seq<PaletteEntry>, pal1: u8) -> int {
    if pal1 as int >= entries.len() {
        0
    } else {
        sum_counts(entries, 1, pal1 as int)
    }
}

/// Cumulative tile count of every palette preceding the map's bottom-layer
/// palette; zero when the reference names a palette beyond the known set.
pub open spec fn bottom_offset(entries: Seq<PaletteEntry>, pal0: u8) -> int {
    if pal0 as int > entries.len() {
        0
    } else {
        sum_counts(entries, 0, pal0 as int)
    }
}

/// One local tile index rewritten into the global atlas: indices above the
/// pivot (the size of palette 0) belong to the top layer and move by the
/// top offset, indices at or below it belong to the bottom layer and move
/// by the bottom offset.
pub open spec fn remap_tile(v: u16, zero: u16, top: int, bottom: int) -> int {
    if v > zero {
        v + top
    } else {
        v + bottom
    }
}

/// Every partial sum of a well-formed palette index stays under the atlas
/// bound.
proof fn lemma_partial_sum_bounded(entries: Seq<PaletteEntry>, lo: int, hi: int)
    requires
        0 <= lo <= hi,
        hi <= entries.len(),
        sum_counts(entries, 0, entries.len() as int) <= MAX_ATLAS_TILES,
    ensures
        sum_counts(entries, lo, hi) <= MAX_ATLAS_TILES,
{
    lemma_sum_split(entries, 0, lo, entries.len() as int);
    lemma_sum_split(entries, lo, hi, entries.len() as int);
    lemma_sum_nonneg(entries, 0, lo);
    lemma_sum_nonneg(entries, hi, entries.len() as int);
}

/// The top-layer offset for this map: the summed sizes of palettes
/// `1 .. palettes[1]`, or zero when `palettes[1]` names a palette beyond
/// the known set.
pub fn get_offset(gba_map: &GbaMap, palette_sizes: &PaletteIndex) -> (r: u16)
    requires
        palette_sizes.wf(),
    ensures
        r as int == top_offset(palette_sizes.entries@, gba_map.palettes@[1]),
{
    let pal1 = gba_map.palettes[1];
    if pal1 as usize >= palette_sizes.len() {
        return 0;
    }
    if pal1 == 0 {
        return 0;
    }
    palette_sizes.sum_range(1, pal1 as usize)
}

/// Rewrites every tile index of the grid and of the border cells from the
/// map-local palette pair into the global tile atlas.
pub fn fix_tiles(gba_map: &mut GbaMap, palette_sizes: &PaletteIndex)
    requires
        old(gba_map).wf(),
        palette_sizes.wf(),
        palette_sizes.entries@.len() >= 1,
    ensures
        final(gba_map).music == old(gba_map).music,
        final(gba_map).width == old(gba_map).width,
        final(gba_map).height == old(gba_map).height,
        final(gba_map).palettes == old(gba_map).palettes,
        final(gba_map).movement_map == old(gba_map).movement_map,
        final(gba_map).tile_map@.len() == old(gba_map).tile_map@.len(),
        final(gba_map).border_blocks@.len() == old(gba_map).border_blocks@.len(),
        forall|i: int|
            0 <= i < old(gba_map).tile_map@.len() ==> final(gba_map).tile_map@[i]
                == remap_tile(
                old(gba_map).tile_map@[i],
                palette_sizes.entries@[0].tile_count,
                top_offset(palette_sizes.entries@, old(gba_map).palettes@[1]),
                bottom_offset(palette_sizes.entries@, old(gba_map).palettes@[0]),
            ),
        forall|i: int|
            0 <= i < old(gba_map).border_blocks@.len() ==> final(gba_map).border_blocks@[i]
                == remap_tile(
                old(gba_map).border_blocks@[i],
                palette_sizes.entries@[0].tile_count,
                top_offset(palette_sizes.entries@, old(gba_map).palettes@[1]),
                bottom_offset(palette_sizes.entries@, old(gba_map).palettes@[0]),
            ),
{
    let ghost entries = palette_sizes.entries@;
    let ghost top = top_offset(entries, gba_map.palettes@[1]);
    let ghost bottom = bottom_offset(entries, gba_map.palettes@[0]);

    let offset = get_offset(gba_map, palette_sizes);
    let zero_size = palette_sizes.entries[0].tile_count;
    let pal0 = gba_map.palettes[0];
    let offset12: u16 = if pal0 > 0 && pal0 as usize <= palette_sizes.len() {
        palette_sizes.sum_range(0, pal0 as usize)
    } else {
        0
    };
    proof {
        if 1 <= (gba_map.palettes@[1] as int) < entries.len() {
            lemma_partial_sum_bounded(entries, 1, gba_map.palettes@[1] as int);
        }
        if pal0 as int <= entries.len() {
            lemma_partial_sum_bounded(entries, 0, pal0 as int);
        }
        assert(offset <= MAX_ATLAS_TILES);
        assert(offset12 as int == bottom);
        assert(offset12 <= MAX_ATLAS_TILES);
    }

    let grid_len = gba_map.tile_map.len();
    let mut index: usize = 0;
    while index < grid_len
        invariant
            grid_len == gba_map.tile_map@.len(),
            index <= grid_len,
            offset as int == top,
            offset12 as int == bottom,
            offset <= MAX_ATLAS_TILES,
            offset12 <= MAX_ATLAS_TILES,
            zero_size == palette_sizes.entries@[0].tile_count,
            gba_map.music == old(gba_map).music,
            gba_map.width == old(gba_map).width,
            gba_map.height == old(gba_map).height,
            gba_map.palettes == old(gba_map).palettes,
            gba_map.movement_map == old(gba_map).movement_map,
            gba_map.border_blocks == old(gba_map).border_blocks,
            gba_map.tile_map@.len() == old(gba_map).tile_map@.len(),
            forall|i: int|
                index <= i < grid_len ==> gba_map.tile_map@[i] == old(gba_map).tile_map@[i],
            forall|i: int| index <= i < grid_len ==> old(gba_map).tile_map@[i] < 1024,
            forall|i: int|
                0 <= i < index ==> gba_map.tile_map@[i] == remap_tile(
                    old(gba_map).tile_map@[i],
                    palette_sizes.entries@[0].tile_count,
                    top,
                    bottom,
                ),
        decreases grid_len - index,
    {
        let t = gba_map.tile_map[index];
        let fixed = if t > zero_size {
            t + offset
        } else {
            t + offset12
        };
        gba_map.tile_map.set(index, fixed);
        index = index + 1;
    }

    let border_len = gba_map.border_blocks.len();
    let mut index: usize = 0;
    while index < border_len
        invariant
            border_len == gba_map.border_blocks@.len(),
            index <= border_len,
            offset as int == top,
            offset12 as int == bottom,
            offset <= MAX_ATLAS_TILES,
            offset12 <= MAX_ATLAS_TILES,
            zero_size == palette_sizes.entries@[0].tile_count,
            gba_map.music == old(gba_map).music,
            gba_map.width == old(gba_map).width,
            gba_map.height == old(gba_map).height,
            gba_map.palettes == old(gba_map).palettes,
            gba_map.movement_map == old(gba_map).movement_map,
            gba_map.border_blocks@.len() == old(gba_map).border_blocks@.len(),
            forall|i: int|
                0 <= i < old(gba_map).tile_map@.len() ==> gba_map.tile_map@[i] == remap_tile(
                    old(gba_map).tile_map@[i],
                    palette_sizes.entries@[0].tile_count,
                    top,
                    bottom,
                ),
            gba_map.tile_map@.len() == old(gba_map).tile_map@.len(),
            forall|i: int|
                index <= i < border_len ==> gba_map.border_blocks@[i] == old(
                    gba_map,
                ).border_blocks@[i],
            forall|i: int| index <= i < border_len ==> old(gba_map).border_blocks@[i] < 1024,
            forall|i: int|
                0 <= i < index ==> gba_map.border_blocks@[i] == remap_tile(
                    old(gba_map).border_blocks@[i],
                    palette_sizes.entries@[0].tile_count,
                    top,
                    bottom,
                ),
        decreases border_len - index,
    {
        let t = gba_map.border_blocks[index];
        let fixed = if t > zero_size {
            t + offset
        } else {
            t + offset12
        };
        gba_map.border_blocks.set(index, fixed);
        index = index + 1;
    }
}

} // verus!
