use vstd::prelude::*;

verus! {

/// One cell of the grid: whether it stops movement and whether it stops sight.
#[derive(Clone, Copy, Debug, PartialEq, Eq, Structural)]
pub struct Tile {
    pub blocked: bool,
    pub block_sight: bool,
}

impl Tile {
    /// The floor tile.
    pub open spec fn spec_empty() -> Tile {
        Tile { blocked: false, block_sight: false }
    }

    /// The wall tile.
    pub open spec fn spec_wall() -> Tile {
        Tile { blocked: true, block_sight: true }
    }

    /// The floor tile, which stops neither movement nor sight.
    #[verifier::when_used_as_spec(spec_empty)]
    pub fn empty() -> (tile: Tile)
        ensures
            tile == Tile::spec_empty(),
    {
        Tile { blocked: false, block_sight: false }
    }

    /// The wall tile, which stops both movement and sight.
    #[verifier::when_used_as_spec(spec_wall)]
    pub fn wall() -> (tile: Tile)
        ensures
            tile == Tile::spec_wall(),
    {
        Tile { blocked: true, block_sight: true }
    }
}

} // verus!
