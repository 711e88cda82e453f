use crate::tile::Tile;
use vstd::prelude::*;

verus! {

/// A colour as red, green and blue.
#[derive(Clone, Copy, Debug, PartialEq, Eq, Structural)]
pub struct Color {
    pub r: u8,
    pub g: u8,
    pub b: u8,
}

/// One thing to put on the screen.
#[derive(Clone, Copy, Debug, PartialEq, Eq, Structural)]
pub enum DrawCommand {
    /// Paint the background of the cell `(x, y)`.
    Background { x: i32, y: i32, color: Color },
    /// Put a glyph on the cell `(x, y)`.
    Glyph { x: i32, y: i32, glyph: char, color: Color },
}

/// The colour of a wall that is not lit.
pub open spec fn dark_wall() -> Color {
    Color { r: 0, g: 0, b: 100 }
}

/// The colour of the ground that is not lit.
pub open spec fn dark_ground() -> Color {
    Color { r: 50, g: 50, b: 150 }
}

/// The background colour of a tile: that of a wall for what stops sight,
/// that of the ground for the rest.
pub open spec fn background_of(tile: Tile) -> Color {
    if tile.block_sight {
        dark_wall()
    } else {
        dark_ground()
    }
}

/// The background colour of a tile.
pub fn background(tile: &Tile) -> (color: Color)
    ensures
        color == background_of(*tile),
{
    if tile.block_sight {
        Color { r: 0, g: 0, b: 100 }
    } else {
        Color { r: 50, g: 50, b: 150 }
    }
}

} // verus!
