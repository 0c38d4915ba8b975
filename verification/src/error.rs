//! Why an engine, or one of its parts, refuses to be built.

use vstd::prelude::*;

verus! {

/// A configuration that the engine does not accept.
#[derive(Clone, Copy, Debug, PartialEq, Eq, Structural)]
pub enum ConfigError {
    /// The grid has no rows, or its rows have no cells.
    EmptyGrid,
    /// The rows of the grid differ in length.
    RaggedGrid,
    /// The grid has more rows or columns than `MAX_GRID_SIDE`.
    GridTooLarge,
    /// The tile size is zero or exceeds `MAX_TILE_SIZE`.
    BadTileSize,
    /// The field of view is not strictly between zero and half a turn.
    BadFieldOfView,
    /// A screen side is zero or exceeds `MAX_SCREEN_SIDE`.
    BadScreenSize,
    /// The sine table is not a valid quarter wave.
    MalformedTrigTable,
}

} // verus!
