//! Asset compiler core for a tile-based world: decodes legacy fixed-layout
//! binary maps, remaps palette-local tile indices into a global tile atlas,
//! assembles per-map resources into a world graph, validates referential
//! integrity of chunk connections and warp destinations, and shapes the
//! validated graph into the exportable artifact.

pub mod emit;
pub mod error;
pub mod gba_map;
pub mod image;
pub mod map;
pub mod palette;
pub mod validate;
pub mod world;
