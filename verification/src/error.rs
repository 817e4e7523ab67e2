//! Error taxonomy: fatal structural conditions (truncated legacy maps,
//! malformed palette names, descriptor shape errors) and the referential
//! integrity violations reported by the whole-graph validator.

use vstd::prelude::*;

verus! {

/// A fatal condition that aborts the compile of the offending map or palette.
#[derive(Debug, PartialEq, Eq, Structural)]
pub enum CompileError {
    /// The legacy binary blob holds fewer bytes than its own header demands.
    TruncatedMap { have: usize, need: usize },
    /// A palette image could not be decoded.
    UndecodableImage,
    /// A palette image holds more tiles than the atlas can address.
    PaletteTooLarge,
    /// More palette files than distinct identifiers can exist.
    TooManyPalettes,
    /// A palette identifier falls outside the dense range `0 .. count`; the
    /// offset sums would silently mis-address tiles, so the index refuses
    /// to build.
    StrayPalette { id: u8 },
    /// Two palette files declare the same identifier.
    DuplicatePalette { id: u8 },
    /// A palette identifier inside the dense range has no file.
    MissingPalette { id: u8 },
    /// The palettes together hold more tiles than the `u16` tile-atlas
    /// address space.
    AtlasTooLarge,
    /// A map descriptor declares neither a chunk nor a map set.
    BadDescriptor,
    /// A map-set descriptor declares zero member maps.
    NoMaps,
    /// A border tile list whose length is not a perfect square.
    BadBorder,
}

/// A dangling reference found by the whole-graph validator.
#[derive(Debug)]
pub enum ValidationError {
    /// A chunk's connection set names a chunk index absent from the graph.
    MissingConnection { map: String, index: u16 },
    /// A warp destination names a chunk index absent from the graph.
    MissingWarpChunk { map: String, index: u16 },
    /// A warp destination names a map-set identifier absent from the graph.
    MissingMapSet { map: String, id: String },
    /// A warp destination names a member index at or past the end of its
    /// (existing) map set.
    WarpIndexOutOfRange { map: String, id: String, index: u16 },
}

} // verus!
