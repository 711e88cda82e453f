use crate::draw::{Color, DrawCommand};
use crate::grid::{Grid, GridView};
use vstd::prelude::*;

verus! {

/// Something that stands on a cell of the grid and is drawn as one glyph.
#[derive(Clone, Copy, Debug, PartialEq, Eq, Structural)]
pub struct Object {
    pub x: i32,
    pub y: i32,
    pub glyph: char,
    pub color: Color,
}

/// Where a walker that stands at `pos` stands after it tried to move by
/// `delta`: on the cell it aimed at if that is a cell of the grid that does
/// not stop movement, and where it stood otherwise.
pub open spec fn step(grid: GridView, pos: (int, int), delta: (int, int)) -> (int, int) {
    if grid.walkable(pos.0 + delta.0, pos.1 + delta.1) {
        (pos.0 + delta.0, pos.1 + delta.1)
    } else {
        pos
    }
}

/// Where a walker that starts at `pos` stands after it tried each of `deltas`
/// in turn.
pub open spec fn walk(grid: GridView, pos: (int, int), deltas: Seq<(int, int)>) -> (int, int)
    decreases deltas.len(),
{
    if deltas.len() == 0 {
        pos
    } else {
        step(grid, walk(grid, pos, deltas.drop_last()), deltas.last())
    }
}

impl Object {
    /// The cell on which the object stands.
    pub open spec fn position(self) -> (int, int) {
        (self.x as int, self.y as int)
    }

    /// The object after it tried to move by `(dx, dy)` on `grid`.
    pub open spec fn after_move(self, grid: GridView, dx: int, dy: int) -> Object {
        let to = step(grid, self.position(), (dx, dy));
        Object { x: to.0 as i32, y: to.1 as i32, ..self }
    }

    /// The glyph of the object on the cell on which it stands, in its colour.
    pub open spec fn glyph_command(self) -> DrawCommand {
        DrawCommand::Glyph { x: self.x, y: self.y, glyph: self.glyph, color: self.color }
    }

    /// An object at `(x, y)`.
    pub fn new(x: i32, y: i32, glyph: char, color: Color) -> (object: Object)
        ensures
            object == (Object { x, y, glyph, color }),
    {
        Object { x, y, glyph, color }
    }

    /// Moves the object by `(dx, dy)` if the cell it would reach is a cell of
    /// the grid that does not stop movement. Otherwise the object stays.
    pub fn move_by(&mut self, dx: i32, dy: i32, map: &Grid)
        requires
            map.wf(),
        ensures
            *final(self) == old(self).after_move(map@, dx as int, dy as int),
            final(self).position() == step(
                map@,
                old(self).position(),
                (dx as int, dy as int),
            ),
    {
        let to_x: i64 = self.x as i64 + dx as i64;
        let to_y: i64 = self.y as i64 + dy as i64;
        if 0 <= to_x && to_x < map.width() as i64 && 0 <= to_y && to_y < map.height() as i64 {
            let x: i32 = to_x as i32;
            let y: i32 = to_y as i32;
            if !map.tile(x, y).blocked {
                self.x = x;
                self.y = y;
            }
        }
    }

    /// What to put on the screen for the object.
    pub fn draw(&self) -> (command: DrawCommand)
        ensures
            command == self.glyph_command(),
    {
        DrawCommand::Glyph { x: self.x, y: self.y, glyph: self.glyph, color: self.color }
    }
}

/// However many moves a walker tries, it ends where it started or on a cell
/// of the grid that does not stop movement; if it started on such a cell it
/// ends on one.
pub proof fn lemma_walk_ends_on_open_ground(
    grid: GridView,
    start: (int, int),
    deltas: Seq<(int, int)>,
)
    ensures
        walk(grid, start, deltas) == start || grid.walkable(
            walk(grid, start, deltas).0,
            walk(grid, start, deltas).1,
        ),
        grid.walkable(start.0, start.1) ==> grid.walkable(
            walk(grid, start, deltas).0,
            walk(grid, start, deltas).1,
        ),
    decreases deltas.len(),
{
    if deltas.len() > 0 {
        lemma_walk_ends_on_open_ground(grid, start, deltas.drop_last());
    }
}

} // verus!
