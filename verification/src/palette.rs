//! Palette index: the mapping from palette identifier to tile count and raw
//! image bytes that every tile-index remap depends on.
//!
//! Offsets into the global tile atlas are partial sums of palette tile
//! counts in ascending identifier order, so the index only builds when the
//! identifiers are dense and contiguous from zero and when the whole atlas
//! stays addressable by `u16`.

use vstd::prelude::*;

use crate::error::CompileError;
use crate::image::decode_png;
use crate::image::png_image;

verus! {

/// One indexed palette: its numeric identifier, how many 16x16-pixel tiles
/// its bottom-layer image holds, and the raw image file bytes.
pub struct PaletteEntry {
    pub id: u8,
    pub tile_count: u16,
    pub raw_bytes: Vec<u8>,
}

/// Largest total tile count the global atlas may hold: adding any 10-bit
/// local tile index (at most 1023) to an offset bounded by this value still
/// fits in `u16`.
pub const MAX_ATLAS_TILES: u16 = 64512;

/// Sum of the tile counts of `s[lo .. hi]`.
pub open spec fn sum_counts(s: Seq<PaletteEntry>, lo: int, hi: int) -> int
    decreases hi - lo,
{
    if lo >= hi {
        0
    } else {
        s[lo].tile_count + sum_counts(s, lo + 1, hi)
    }
}

pub proof fn lemma_sum_nonneg(s: Seq<PaletteEntry>, lo: int, hi: int)
    requires
        0 <= lo,
        hi <= s.len(),
    ensures
        sum_counts(s, lo, hi) >= 0,
    decreases hi - lo,
{
    if lo < hi {
        lemma_sum_nonneg(s, lo + 1, hi);
    }
}

pub proof fn lemma_sum_split(s: Seq<PaletteEntry>, lo: int, mid: int, hi: int)
    requires
        lo <= mid <= hi,
    ensures
        sum_counts(s, lo, hi) == sum_counts(s, lo, mid) + sum_counts(s, mid, hi),
    decreases mid - lo,
{
    if lo < mid {
        lemma_sum_split(s, lo + 1, mid, hi);
    }
}

/// How many entries of `s` carry identifier `id`.
pub open spec fn count_id(s: Seq<PaletteEntry>, id: int) -> int
    decreases s.len(),
{
    if s.len() == 0 {
        0
    } else {
        count_id(s.drop_last(), id) + if s.last().id as int == id {
            1int
        } else {
            0int
        }
    }
}

pub proof fn lemma_count_pos(s: Seq<PaletteEntry>, id: int, j: int)
    requires
        0 <= j < s.len(),
        s[j].id as int == id,
    ensures
        count_id(s, id) >= 1,
    decreases s.len(),
{
    if j < s.len() - 1 {
        lemma_count_pos(s.drop_last(), id, j);
    }
    lemma_count_nonneg(s.drop_last(), id);
}

pub proof fn lemma_count_nonneg(s: Seq<PaletteEntry>, id: int)
    ensures
        count_id(s, id) >= 0,
    decreases s.len(),
{
    if s.len() > 0 {
        lemma_count_nonneg(s.drop_last(), id);
    }
}

/// Two distinct positions with the same identifier force a count of two.
pub proof fn lemma_count_two(s: Seq<PaletteEntry>, id: int, a: int, b: int)
    requires
        0 <= a < s.len(),
        0 <= b < s.len(),
        a != b,
        s[a].id as int == id,
        s[b].id as int == id,
    ensures
        count_id(s, id) >= 2,
    decreases s.len(),
{
    let last = s.len() - 1;
    if a == last {
        lemma_count_pos(s.drop_last(), id, b);
    } else if b == last {
        lemma_count_pos(s.drop_last(), id, a);
    } else {
        lemma_count_two(s.drop_last(), id, a, b);
    }
}

/// Identifiers of `s` are exactly `0 .. s.len()`, one entry each.
pub open spec fn dense_ids(s: Seq<PaletteEntry>) -> bool {
    &&& forall|j: int| 0 <= j < s.len() ==> (#[trigger] s[j]).id < s.len()
    &&& forall|t: int| 0 <= t < s.len() ==> #[trigger] count_id(s, t) == 1
}

/// A positive count exhibits a matching entry.
pub proof fn lemma_count_exists(s: Seq<PaletteEntry>, id: int)
    requires
        count_id(s, id) >= 1,
    ensures
        exists|j: int| 0 <= j < s.len() && (#[trigger] s[j]).id as int == id,
    decreases s.len(),
{
    if s.len() > 0 {
        if s.last().id as int == id {
            assert(s[s.len() - 1].id as int == id);
        } else {
            lemma_count_exists(s.drop_last(), id);
            let j = choose|j: int|
                0 <= j < s.drop_last().len() && (#[trigger] s.drop_last()[j]).id as int == id;
            assert(s[j].id as int == id);
        }
    }
}

/// Tile count of the unique entry of `s` whose identifier is `t`;
/// meaningful only under `dense_ids`.
pub open spec fn tile_count_of(s: Seq<PaletteEntry>, t: int) -> int {
    s[choose|j: int| 0 <= j < s.len() && s[j].id as int == t].tile_count as int
}

/// Sum of the tile counts of the entries with identifiers `0 .. t`, in
/// identifier order; meaningful only under `dense_ids`.
pub open spec fn dense_total(s: Seq<PaletteEntry>, t: int) -> int
    decreases t,
{
    if t <= 0 {
        0
    } else {
        dense_total(s, t - 1) + tile_count_of(s, t - 1)
    }
}

/// The palette index: entries in ascending identifier order, identifier
/// equal to position, total tile count addressable by `u16`.
pub struct PaletteIndex {
    pub entries: Vec<PaletteEntry>,
}

impl PaletteIndex {
    /// Well-formedness: dense contiguous identifiers and a `u16`-addressable
    /// atlas.
    pub open spec fn wf(self) -> bool {
        &&& self.entries@.len() <= 256
        &&& forall|t: int|
            0 <= t < self.entries@.len() ==> (#[trigger] self.entries@[t].id) as int == t
        &&& sum_counts(self.entries@, 0, self.entries@.len() as int) <= MAX_ATLAS_TILES
    }

    pub fn len(&self) -> (n: usize)
        ensures
            n == self.entries@.len(),
    {
        self.entries.len()
    }

    /// Sum of the tile counts of the palettes `lo .. hi`.
    pub fn sum_range(&self, lo: usize, hi: usize) -> (s: u16)
        requires
            self.wf(),
            lo <= hi,
            hi <= self.entries@.len(),
        ensures
            s as int == sum_counts(self.entries@, lo as int, hi as int),
    {
        let ghost all = self.entries@;
        let ghost n = self.entries@.len() as int;
        let mut acc: u16 = 0;
        let mut i: usize = lo;
        while i < hi
            invariant
                self.wf(),
                lo <= i <= hi,
                hi <= all.len(),
                all == self.entries@,
                n == all.len() as int,
                acc as int == sum_counts(all, lo as int, i as int),
            decreases hi - i,
        {
            proof {
                lemma_sum_split(all, 0, lo as int, n);
                lemma_sum_split(all, lo as int, i + 1, n);
                lemma_sum_split(all, lo as int, i as int, i + 1);
                assert(sum_counts(all, i + 1, i + 1) == 0);
                assert(sum_counts(all, i as int, i + 1) == all[i as int].tile_count as int);
                lemma_sum_nonneg(all, 0, lo as int);
                lemma_sum_nonneg(all, i + 1, n);
            }
            acc = acc + self.entries[i].tile_count;
            i = i + 1;
        }
        acc
    }

    /// Builds the index from the entries scanned out of a texture
    /// directory, in any order. Fails when an identifier falls outside the
    /// dense range, repeats, or is missing, or when the atlas outgrows the
    /// `u16` address space.
    pub fn build(items: Vec<PaletteEntry>) -> (r: Result<PaletteIndex, CompileError>)
        ensures
            r is Ok <==> dense_ids(items@) && dense_total(items@, items@.len() as int)
                <= MAX_ATLAS_TILES,
            r matches Ok(p) ==> {
                &&& p.wf()
                &&& p.entries@.len() == items@.len()
                &&& forall|t: int, j: int|
                    #![trigger p.entries@[t], items@[j]]
                    0 <= t < items@.len() && 0 <= j < items@.len() && items@[j].id as int == t
                        ==> {
                        &&& p.entries@[t].id == items@[j].id
                        &&& p.entries@[t].tile_count == items@[j].tile_count
                        &&& p.entries@[t].raw_bytes@ == items@[j].raw_bytes@
                    }
            },
            r matches Err(e) ==> match e {
                CompileError::TooManyPalettes => items@.len() > 256,
                CompileError::StrayPalette { id } => exists|j: int|
                    0 <= j < items@.len() && #[trigger] items@[j].id == id && id as int
                        >= items@.len(),
                CompileError::MissingPalette { id } => (id as int) < items@.len() && count_id(
                    items@,
                    id as int,
                ) == 0,
                CompileError::DuplicatePalette { id } => count_id(items@, id as int) >= 2,
                CompileError::AtlasTooLarge => dense_ids(items@) && dense_total(
                    items@,
                    items@.len() as int,
                ) > MAX_ATLAS_TILES,
                _ => false,
            },
    {
        let n = items.len();
        if n > 256 {
            proof {
                // Density is impossible: an entry would need identifier 256.
                if dense_ids(items@) {
                    assert(count_id(items@, 256) == 1);
                    lemma_count_exists(items@, 256);
                }
            }
            return Err(CompileError::TooManyPalettes);
        }
        // Every identifier must fall inside the dense range 0 .. n.
        for j in 0..n
            invariant
                n == items@.len(),
                forall|k: int| 0 <= k < j ==> (#[trigger] items@[k]).id < n,
        {
            if items[j].id as usize >= n {
                return Err(CompileError::StrayPalette { id: items[j].id });
            }
        }
        // Every identifier in the range must occur exactly once.
        for t in 0..n
            invariant
                n == items@.len() <= 256,
                forall|u: int| 0 <= u < t ==> #[trigger] count_id(items@, u) == 1,
        {
            let c = count_matching(&items, t as u8);
            if c == 0 {
                return Err(CompileError::MissingPalette { id: t as u8 });
            }
            if c > 1 {
                proof {
                    lemma_count_nonneg(items@, t as int);
                }
                return Err(CompileError::DuplicatePalette { id: t as u8 });
            }
        }
        // Assemble in identifier order, tracking the atlas total.
        let mut out: Vec<PaletteEntry> = Vec::new();
        let mut total: u32 = 0;
        for t in 0..n
            invariant
                n == items@.len() <= 256,
                dense_ids(items@),
                out@.len() == t,
                total <= t * 65535,
                total as int == dense_total(items@, t as int),
                total as int == sum_counts(out@, 0, t as int),
                forall|u: int| 0 <= u < t ==> (#[trigger] out@[u].id) as int == u,
                forall|u: int, j: int|
                    #![trigger out@[u], items@[j]]
                    0 <= u < t && 0 <= j < items@.len() && items@[j].id as int == u ==> {
                        &&& out@[u].id == items@[j].id
                        &&& out@[u].tile_count == items@[j].tile_count
                        &&& out@[u].raw_bytes@ == items@[j].raw_bytes@
                    },
        {
            let j = find_matching(&items, t as u8);
            let e = items[j].duplicate();
            proof {
                assert(items@[j as int].id as int == t as int);
                assert forall|k: int|
                    0 <= k < items@.len() && items@[k].id as int == t as int implies k
                    == j as int by {
                    if k != j as int {
                        lemma_count_two(items@, t as int, k, j as int);
                    }
                }
                assert(tile_count_of(items@, t as int) == items@[j as int].tile_count as int);
                lemma_sum_split(out@.push(e), 0, t as int, t + 1);
                assert(out@.push(e)[t as int] == e);
                assert(sum_counts(out@.push(e), t + 1, t + 1) == 0);
                assert(sum_counts(out@.push(e), t as int, t + 1) == e.tile_count as int);
                lemma_sum_prefix_stable(out@, e, 0, t as int);
            }
            total = total + e.tile_count as u32;
            out.push(e);
        }
        if total > MAX_ATLAS_TILES as u32 {
            return Err(CompileError::AtlasTooLarge);
        }
        Ok(PaletteIndex { entries: out })
    }
}

/// Appending one entry does not change a sum over the old range.
pub proof fn lemma_sum_prefix_stable(s: Seq<PaletteEntry>, e: PaletteEntry, lo: int, hi: int)
    requires
        0 <= lo,
        hi <= s.len(),
    ensures
        sum_counts(s.push(e), lo, hi) == sum_counts(s, lo, hi),
    decreases hi - lo,
{
    if lo < hi {
        lemma_sum_prefix_stable(s, e, lo + 1, hi);
    }
}

impl PaletteEntry {
    /// Field-for-field copy.
    pub fn duplicate(&self) -> (r: PaletteEntry)
        ensures
            r.id == self.id,
            r.tile_count == self.tile_count,
            r.raw_bytes@ == self.raw_bytes@,
    {
        let mut raw: Vec<u8> = Vec::new();
        for i in 0..self.raw_bytes.len()
            invariant
                raw@ == self.raw_bytes@.take(i as int),
        {
            raw.push(self.raw_bytes[i]);
            proof {
                assert(self.raw_bytes@.take(i + 1) =~= self.raw_bytes@.take(i as int).push(
                    self.raw_bytes@[i as int],
                ));
            }
        }
        proof {
            assert(raw@ =~= self.raw_bytes@);
        }
        PaletteEntry { id: self.id, tile_count: self.tile_count, raw_bytes: raw }
    }
}

/// How many entries carry identifier `id`.
fn count_matching(items: &Vec<PaletteEntry>, id: u8) -> (c: usize)
    ensures
        c == count_id(items@, id as int),
{
    let mut c: usize = 0;
    for j in 0..items.len()
        invariant
            c == count_id(items@.take(j as int), id as int),
            c <= j,
    {
        proof {
            assert(items@.take(j + 1).drop_last() =~= items@.take(j as int));
            assert(items@.take(j + 1).last() == items@[j as int]);
        }
        if items[j].id == id {
            c = c + 1;
        }
    }
    proof {
        assert(items@.take(items@.len() as int) =~= items@);
    }
    c
}

/// Position of the first entry carrying identifier `id`.
fn find_matching(items: &Vec<PaletteEntry>, id: u8) -> (j: usize)
    requires
        count_id(items@, id as int) >= 1,
    ensures
        j < items@.len(),
        items@[j as int].id == id,
{
    let mut j: usize = 0;
    while j < items.len()
        invariant
            j <= items@.len(),
            count_id(items@, id as int) >= 1,
            forall|k: int| 0 <= k < j ==> (#[trigger] items@[k].id) != id,
        decreases items@.len() - j,
    {
        if items[j].id == id {
            return j;
        }
        j = j + 1;
    }
    proof {
        lemma_count_none(items@, id as int);
    }
    unreached()
}

/// A sequence with no matching entry has a zero count.
pub proof fn lemma_count_none(s: Seq<PaletteEntry>, id: int)
    requires
        forall|k: int| 0 <= k < s.len() ==> (#[trigger] s[k].id) as int != id,
    ensures
        count_id(s, id) == 0,
    decreases s.len(),
{
    if s.len() > 0 {
        lemma_count_none(s.drop_last(), id);
    }
}

/// How a texture-directory file name classifies: not a bottom-layer
/// palette image at all, a palette image whose identifier does not parse,
/// or a palette image with its parsed identifier.
#[derive(Debug, PartialEq, Eq, Structural)]
pub enum PaletteFileName {
    Other,
    Invalid,
    Id(u8),
}

/// An ASCII decimal digit.
pub open spec fn is_digit_byte(b: u8) -> bool {
    48 <= b <= 57
}

/// A file name of the palette shape: it starts with `P` and ends with
/// `B.png` (the bottom-layer naming convention).
pub open spec fn palette_candidate(s: Seq<u8>) -> bool {
    &&& s.len() >= 6
    &&& s[0] == 80
    &&& s[s.len() - 5] == 66
    &&& s[s.len() - 4] == 46
    &&& s[s.len() - 3] == 112
    &&& s[s.len() - 2] == 110
    &&& s[s.len() - 1] == 103
}

/// The identifier region of a palette file name: what stands between the
/// seven-byte prefix and the five-byte suffix.
pub open spec fn digit_region(s: Seq<u8>) -> Seq<u8> {
    s.subrange(7, s.len() - 5)
}

pub open spec fn all_digits(s: Seq<u8>) -> bool {
    forall|i: int| 0 <= i < s.len() ==> is_digit_byte(#[trigger] s[i])
}

/// The decimal value of a digit string.
pub open spec fn digits_value(s: Seq<u8>) -> int
    decreases s.len(),
{
    if s.len() == 0 {
        0
    } else {
        digits_value(s.drop_last()) * 10 + (s.last() - 48)
    }
}

/// Classifies one texture-directory file name. A name that is no palette
/// image is skipped; a palette-shaped name whose identifier region is
/// absent, non-numeric or out of the `u8` range is fatal to the compile.
pub fn parse_palette_filename(name: &[u8]) -> (r: PaletteFileName)
    ensures
        !palette_candidate(name@) ==> r == PaletteFileName::Other,
        palette_candidate(name@) && name@.len() < 13 ==> r == PaletteFileName::Invalid,
        palette_candidate(name@) && name@.len() >= 13 && !(all_digits(digit_region(name@))
            && digits_value(digit_region(name@)) <= 255) ==> r == PaletteFileName::Invalid,
        palette_candidate(name@) && name@.len() >= 13 && all_digits(digit_region(name@))
            && digits_value(digit_region(name@)) <= 255 ==> r == PaletteFileName::Id(
            digits_value(digit_region(name@)) as u8,
        ),
{
    let len = name.len();
    if len < 6 {
        return PaletteFileName::Other;
    }
    if name[0] != 80 {
        return PaletteFileName::Other;
    }
    if name[len - 5] != 66 || name[len - 4] != 46 || name[len - 3] != 112 || name[len - 2] != 110
        || name[len - 1] != 103 {
        return PaletteFileName::Other;
    }
    if len < 13 {
        return PaletteFileName::Invalid;
    }
    let ghost region = digit_region(name@);
    let mut acc: u32 = 0;
    let mut over = false;
    let mut i: usize = 7;
    while i < len - 5
        invariant
            palette_candidate(name@),
            7 <= i <= len - 5,
            13 <= len == name@.len(),
            region == digit_region(name@),
            region.len() == len - 12,
            forall|k: int| 0 <= k < i - 7 ==> is_digit_byte(#[trigger] region[k]),
            !over ==> acc <= 255 && acc as int == digits_value(region.take(i - 7)),
            over ==> digits_value(region.take(i - 7)) > 255,
        decreases len - i,
    {
        let b = name[i];
        proof {
            assert(region[i - 7] == name@[i as int]);
        }
        if b < 48 || b > 57 {
            return PaletteFileName::Invalid;
        }
        proof {
            assert(region.take(i - 7 + 1).drop_last() =~= region.take(i - 7));
            assert(region.take(i - 7 + 1).last() == region[i - 7]);
        }
        if !over {
            acc = acc * 10 + (b - 48) as u32;
            if acc > 255 {
                over = true;
            }
        } else {
            proof {
                let v = digits_value(region.take(i - 7));
                assert(digits_value(region.take(i - 7 + 1)) == v * 10 + (region[i - 7] - 48));
                assert(v * 10 >= 2560);
            }
        }
        i = i + 1;
    }
    proof {
        assert(region.take(region.len() as int) =~= region);
    }
    if over {
        return PaletteFileName::Invalid;
    }
    PaletteFileName::Id(acc as u8)
}

/// Tile count of a palette image: the image is divided into 16x16-pixel
/// tiles, so each dimension contributes its pixel count shifted down by
/// four.
pub open spec fn spec_tile_count(w: u32, h: u32) -> int {
    ((w >> 4) as int) * ((h >> 4) as int)
}

/// Builds one palette entry from a palette image file: decodes the image
/// (as PNG) for its dimensions and keeps the raw file bytes. An
/// undecodable image is fatal; so is a tile count past the atlas address
/// space.
pub fn palette_entry_from_image(id: u8, bytes: Vec<u8>) -> (r: Result<PaletteEntry, CompileError>)
    ensures
        png_image(bytes@) is None ==> r == Err::<PaletteEntry, CompileError>(
            CompileError::UndecodableImage,
        ),
        png_image(bytes@) matches Some(t) ==> {
            &&& spec_tile_count(t.0, t.1) > 65535 ==> r == Err::<PaletteEntry, CompileError>(
                CompileError::PaletteTooLarge,
            )
            &&& spec_tile_count(t.0, t.1) <= 65535 ==> {
                &&& r is Ok
                &&& (r matches Ok(e) ==> {
                    &&& e.id == id
                    &&& e.tile_count as int == spec_tile_count(t.0, t.1)
                    &&& e.raw_bytes@ == bytes@
                })
            }
        },
{
    match decode_png(bytes.as_slice()) {
        None => Err(CompileError::UndecodableImage),
        Some((width, height, _)) => {
            let tw = width >> 4;
            let th = height >> 4;
            proof {
                assert(tw == width >> 4 && th == height >> 4);
                assert((width >> 4) <= width && (height >> 4) <= height) by (bit_vector);
                assert(tw as int * th as int <= 0xFFFF_FFFF * 0xFFFF_FFFF) by (nonlinear_arith)
                    requires
                        tw <= 0xFFFF_FFFFu32,
                        th <= 0xFFFF_FFFFu32,
                ;
            }
            let count = tw as u64 * th as u64;
            if count > 65535 {
                Err(CompileError::PaletteTooLarge)
            } else {
                Ok(PaletteEntry { id, tile_count: count as u16, raw_bytes: bytes })
            }
        },
    }
}

} // verus!
