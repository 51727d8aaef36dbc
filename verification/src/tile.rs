//! The tile taxonomy and the overwrite policies of area operations.

use vstd::prelude::*;

verus! {

/// The closed set of tile kinds a generated map can hold.
///
/// `EmptyReserved` is an internal marker: semantically empty for traversal
/// but protected from later overwrite during the same generation.
#[derive(Clone, Copy, Debug, PartialEq, Eq, Structural)]
pub enum Tile {
    Empty,
    EmptyReserved,
    Hookable,
    Freeze,
    Spawn,
    Start,
    Finish,
    Platform,
}

/// The policy an area operation applies when it meets an existing tile.
#[derive(Clone, Copy, Debug, PartialEq, Eq, Structural)]
pub enum Overwrite {
    /// Unconditional write.
    Force,
    /// Write only over `Empty` / `EmptyReserved`.
    ReplaceEmptyOnly,
    /// Write over any non-solid tile; ignore solid ones.
    ReplaceNonSolidForce,
    /// Write only over solid tiles.
    ReplaceSolidOnly,
}

/// `Hookable`, `Freeze` and `Platform` are solid; every other tile is not.
pub open spec fn spec_is_solid(t: Tile) -> bool {
    t == Tile::Hookable || t == Tile::Freeze || t == Tile::Platform
}

/// Whether a write under the given policy may replace the tile `old_tile`.
pub open spec fn spec_allows(ow: Overwrite, old_tile: Tile) -> bool {
    match ow {
        Overwrite::Force => true,
        Overwrite::ReplaceEmptyOnly => old_tile == Tile::Empty || old_tile == Tile::EmptyReserved,
        Overwrite::ReplaceNonSolidForce => !spec_is_solid(old_tile),
        Overwrite::ReplaceSolidOnly => spec_is_solid(old_tile),
    }
}

impl Tile {
    /// Whether this tile blocks traversal.
    pub fn is_solid(&self) -> (r: bool)
        ensures
            r == spec_is_solid(*self),
    {
        match self {
            Tile::Hookable => true,
            Tile::Freeze => true,
            Tile::Platform => true,
            _ => false,
        }
    }
}

impl Overwrite {
    /// Whether a write under this policy may replace `old_tile`.
    pub fn allows(&self, old_tile: Tile) -> (r: bool)
        ensures
            r == spec_allows(*self, old_tile),
    {
        match self {
            Overwrite::Force => true,
            Overwrite::ReplaceEmptyOnly => {
                old_tile == Tile::Empty || old_tile == Tile::EmptyReserved
            },
            Overwrite::ReplaceNonSolidForce => !old_tile.is_solid(),
            Overwrite::ReplaceSolidOnly => old_tile.is_solid(),
        }
    }
}

} // verus!
