use crate::rect::Rect;
use crate::tile::Tile;
use vstd::prelude::*;

verus! {

/// What can go wrong when a grid is made.
#[derive(Clone, Copy, Debug, PartialEq, Eq, Structural)]
pub enum GridError {
    /// The width or the height is zero.
    EmptyDimension,
}

/// The mathematical content of a grid: its size and its tiles in row-major
/// order, so that the tile at `(x, y)` stands at index `x + y * width`.
pub struct GridView {
    pub width: int,
    pub height: int,
    pub tiles: Seq<Tile>,
}

impl GridView {
    /// Both dimensions are positive and there is one tile per cell.
    pub open spec fn wf(self) -> bool {
        &&& self.width > 0
        &&& self.height > 0
        &&& self.tiles.len() == self.width * self.height
    }

    /// The grid of the given size that is solid rock.
    pub open spec fn solid(width: int, height: int) -> GridView {
        GridView { width, height, tiles: Seq::new((width * height) as nat, |i: int| Tile::wall()) }
    }

    /// `(x, y)` names a cell of the grid.
    pub open spec fn within(self, x: int, y: int) -> bool {
        0 <= x < self.width && 0 <= y < self.height
    }

    /// The index of the cell `(x, y)`.
    pub open spec fn index_of(self, x: int, y: int) -> int {
        x + y * self.width
    }

    /// The cell that stands at index `i`.
    pub open spec fn coordinate_of(self, i: int) -> (int, int) {
        (i % self.width, i / self.width)
    }

    /// The tile of the cell `(x, y)`.
    pub open spec fn tile_at(self, x: int, y: int) -> Tile {
        self.tiles[self.index_of(x, y)]
    }

    /// `(x, y)` is a cell of the grid and holds the floor tile.
    pub open spec fn is_floor(self, x: int, y: int) -> bool {
        self.within(x, y) && self.tile_at(x, y) == Tile::empty()
    }

    /// `later` has the size of this grid and at least its floor.
    pub open spec fn floor_kept_by(self, later: GridView) -> bool {
        &&& later.width == self.width
        &&& later.height == self.height
        &&& forall|x: int, y: int| #[trigger] self.is_floor(x, y) ==> later.is_floor(x, y)
    }

    /// `(x, y)` is a cell of the grid that does not stop movement.
    pub open spec fn walkable(self, x: int, y: int) -> bool {
        self.within(x, y) && !self.tile_at(x, y).blocked
    }

    /// The grid after the cell `(x, y)` became floor.
    pub open spec fn with_floor(self, x: int, y: int) -> GridView {
        GridView { tiles: self.tiles.update(self.index_of(x, y), Tile::empty()), ..self }
    }

    /// Every cell of the closed bounding box of `rect` is a cell of the grid.
    pub open spec fn holds(self, rect: Rect) -> bool {
        0 <= rect.x1 <= rect.x2 < self.width && 0 <= rect.y1 <= rect.y2 < self.height
    }

    /// Every cell strictly inside `rect` is a cell of the grid.
    pub open spec fn holds_interior(self, rect: Rect) -> bool {
        forall|x: int, y: int| #[trigger] rect.inside(x, y) ==> self.within(x, y)
    }

    /// The grid after every cell strictly inside `rect` became floor.
    pub open spec fn carve_room(self, rect: Rect) -> GridView {
        GridView {
            tiles: Seq::new(
                self.tiles.len(),
                |i: int|
                    if rect.inside(i % self.width, i / self.width) {
                        Tile::empty()
                    } else {
                        self.tiles[i]
                    },
            ),
            ..self
        }
    }

    /// `(x, y)` lies on row `row` between the columns `x1` and `x2`, ends included.
    pub open spec fn on_h_tunnel(x1: int, x2: int, row: int, x: int, y: int) -> bool {
        y == row && (x1 <= x <= x2 || x2 <= x <= x1)
    }

    /// `(x, y)` lies on column `col` between the rows `y1` and `y2`, ends included.
    pub open spec fn on_v_tunnel(y1: int, y2: int, col: int, x: int, y: int) -> bool {
        x == col && (y1 <= y <= y2 || y2 <= y <= y1)
    }

    /// The grid after the cells of row `y` from column `x1` to column `x2`
    /// became floor.
    pub open spec fn carve_h_tunnel(self, x1: int, x2: int, y: int) -> GridView {
        GridView {
            tiles: Seq::new(
                self.tiles.len(),
                |i: int|
                    if Self::on_h_tunnel(x1, x2, y, i % self.width, i / self.width) {
                        Tile::empty()
                    } else {
                        self.tiles[i]
                    },
            ),
            ..self
        }
    }

    /// The grid after the cells of column `x` from row `y1` to row `y2`
    /// became floor.
    pub open spec fn carve_v_tunnel(self, y1: int, y2: int, x: int) -> GridView {
        GridView {
            tiles: Seq::new(
                self.tiles.len(),
                |i: int|
                    if Self::on_v_tunnel(y1, y2, x, i % self.width, i / self.width) {
                        Tile::empty()
                    } else {
                        self.tiles[i]
                    },
            ),
            ..self
        }
    }
}

/// A fixed-size grid of tiles.
#[derive(Debug, PartialEq, Eq)]
pub struct Grid {
    data: Vec<Tile>,
    w: usize,
    h: usize,
}

impl View for Grid {
    type V = GridView;

    closed spec fn view(&self) -> GridView {
        GridView { width: self.w as int, height: self.h as int, tiles: self.data@ }
    }
}

impl Grid {
    /// The grid is sound and its dimensions fit the signed coordinates.
    pub open spec fn wf(&self) -> bool {
        &&& self@.wf()
        &&& self@.width <= i32::MAX
        &&& self@.height <= i32::MAX
    }

    /// A grid of `w` by `h` cells, all of them wall.
    pub fn new(w: usize, h: usize) -> (made: Result<Grid, GridError>)
        requires
            w <= i32::MAX,
            h <= i32::MAX,
            w * h <= usize::MAX,
        ensures
            made is Ok <==> w > 0 && h > 0,
            made matches Ok(grid) ==> grid.wf() && grid@ == GridView::solid(w as int, h as int),
            made matches Err(e) ==> e == GridError::EmptyDimension,
    {
        if w == 0 || h == 0 {
            return Err(GridError::EmptyDimension);
        }
        Ok(Grid::filled(w, h))
    }

    /// A grid of `w` by `h` cells, all of them wall, for dimensions that are
    /// positive.
    pub(crate) fn filled(w: usize, h: usize) -> (grid: Grid)
        requires
            0 < w <= i32::MAX,
            0 < h <= i32::MAX,
            w * h <= usize::MAX,
        ensures
            grid.wf(),
            grid@ == GridView::solid(w as int, h as int),
    {
        let data = vec![Tile::wall(); w * h];
        let grid = Grid { data, w, h };
        assert(grid@.tiles =~= GridView::solid(w as int, h as int).tiles);
        grid
    }

    /// The number of columns.
    pub fn width(&self) -> (w: usize)
        ensures
            w == self@.width,
    {
        self.w
    }

    /// The number of rows.
    pub fn height(&self) -> (h: usize)
        ensures
            h == self@.height,
    {
        self.h
    }

    /// The tiles in row-major order.
    pub fn tiles(&self) -> (tiles: &Vec<Tile>)
        ensures
            tiles@ == self@.tiles,
    {
        &self.data
    }

    /// The cell `(x, y)` of the tile at index `i`.
    pub fn get_idx_pos(&self, i: usize) -> (pos: (i32, i32))
        requires
            self.wf(),
            i < self@.width * self@.height,
        ensures
            (pos.0 as int, pos.1 as int) == self@.coordinate_of(i as int),
            self@.within(pos.0 as int, pos.1 as int),
    {
        proof {
            lemma_index_of_coordinate(self@, i as int);
        }
        let x: usize = i % self.w;
        let y: usize = i / self.w;
        (x as i32, y as i32)
    }

    /// The index of the tile at the cell `(x, y)`.
    pub fn get_pos_idx(&self, x: i32, y: i32) -> (i: usize)
        requires
            self.wf(),
            self@.within(x as int, y as int),
        ensures
            i == self@.index_of(x as int, y as int),
            i < self@.tiles.len(),
    {
        proof {
            lemma_coordinate_of_index(self@, x as int, y as int);
            assert(0 <= y * self.w) by (nonlinear_arith)
                requires
                    0 <= y,
                    0 <= self.w,
            ;
            assert(self@.tiles.len() == self.data.len());
        }
        x as usize + y as usize * self.w
    }

    /// Whether `(x, y)` names a cell of the grid.
    pub fn within(&self, x: i32, y: i32) -> (inside: bool)
        requires
            self.wf(),
        ensures
            inside == self@.within(x as int, y as int),
    {
        x >= 0 && x < (self.w as i32) && y >= 0 && y < (self.h as i32)
    }

    /// The tile of the cell `(x, y)`.
    pub fn tile(&self, x: i32, y: i32) -> (tile: Tile)
        requires
            self.wf(),
            self@.within(x as int, y as int),
        ensures
            tile == self@.tile_at(x as int, y as int),
    {
        let idx: usize = self.get_pos_idx(x, y);
        self.data[idx]
    }

    /// Turns the cell `(x, y)` into floor.
    fn dig(&mut self, x: i32, y: i32)
        requires
            old(self).wf(),
            old(self)@.within(x as int, y as int),
        ensures
            final(self).wf(),
            final(self)@ == old(self)@.with_floor(x as int, y as int),
    {
        let idx: usize = self.get_pos_idx(x, y);
        self.data.set(idx, Tile::empty());
    }

    /// Turns every cell strictly inside `rect` into floor; the border of
    /// `rect` and everything outside it keep their tiles.
    pub fn create_room(&mut self, rect: Rect)
        requires
            old(self).wf(),
            old(self)@.holds_interior(rect),
        ensures
            final(self).wf(),
            final(self)@ == old(self)@.carve_room(rect),
    {
        let ghost before = self@;
        if rect.x1 < rect.x2 && rect.y1 < rect.y2 {
            let mut x: i32 = rect.x1 + 1;
            assert(self@.tiles =~= room_until(before, rect, x as int, rect.y1 + 1).tiles);
            while x < rect.x2
                invariant
                    rect.x1 < x <= rect.x2,
                    rect.y1 < rect.y2,
                    before.wf(),
                    before.holds_interior(rect),
                    self.wf(),
                    self@ == room_until(before, rect, x as int, rect.y1 + 1),
                decreases rect.x2 - x,
            {
                let mut y: i32 = rect.y1 + 1;
                while y < rect.y2
                    invariant
                        rect.x1 < x < rect.x2,
                        rect.y1 < y <= rect.y2,
                        before.wf(),
                        before.holds_interior(rect),
                        self.wf(),
                        self@ == room_until(before, rect, x as int, y as int),
                    decreases rect.y2 - y,
                {
                    assert(rect.inside(x as int, y as int));
                    let ghost mid = self@;
                    self.dig(x, y);
                    proof {
                        let next = room_until(before, rect, x as int, y + 1);
                        lemma_coordinate_of_index(before, x as int, y as int);
                        assert forall|i: int| 0 <= i < before.tiles.len() implies self@.tiles[i]
                            == next.tiles[i] by {
                            lemma_index_joins(before.width, i);
                            if i != before.index_of(x as int, y as int) {
                                assert(self@.tiles[i] == mid.tiles[i]);
                            }
                        }
                        assert(self@.tiles =~= next.tiles);
                    }
                    y = y + 1;
                }
                assert(self@.tiles =~= room_until(before, rect, x + 1, rect.y1 + 1).tiles);
                x = x + 1;
            }
        }
        assert(self@.tiles =~= before.carve_room(rect).tiles);
    }

    /// Turns the cells of row `y` between the columns `x1` and `x2`, both
    /// included and in either order, into floor.
    pub fn create_h_tunnel(&mut self, x1: i32, x2: i32, y: i32)
        requires
            old(self).wf(),
            old(self)@.within(x1 as int, y as int),
            old(self)@.within(x2 as int, y as int),
        ensures
            final(self).wf(),
            final(self)@ == old(self)@.carve_h_tunnel(x1 as int, x2 as int, y as int),
    {
        let ghost before = self@;
        let lo: i32 = if x1 <= x2 { x1 } else { x2 };
        let hi: i32 = if x1 <= x2 { x2 } else { x1 };
        let mut x: i32 = lo;
        assert(self@.tiles =~= row_until(before, lo as int, x as int, y as int).tiles);
        while x <= hi
            invariant
                lo <= x <= hi + 1,
                0 <= lo <= hi < before.width,
                0 <= y < before.height,
                before.wf(),
                self.wf(),
                self@ == row_until(before, lo as int, x as int, y as int),
            decreases hi + 1 - x,
        {
            let ghost mid = self@;
            self.dig(x, y);
            proof {
                let next = row_until(before, lo as int, x + 1, y as int);
                lemma_coordinate_of_index(before, x as int, y as int);
                assert forall|i: int| 0 <= i < before.tiles.len() implies self@.tiles[i]
                    == next.tiles[i] by {
                    lemma_index_joins(before.width, i);
                    if i != before.index_of(x as int, y as int) {
                        assert(self@.tiles[i] == mid.tiles[i]);
                    }
                }
                assert(self@.tiles =~= next.tiles);
            }
            x = x + 1;
        }
        assert(self@.tiles =~= before.carve_h_tunnel(x1 as int, x2 as int, y as int).tiles);
    }

    /// Turns the cells of column `x` between the rows `y1` and `y2`, both
    /// included and in either order, into floor.
    pub fn create_v_tunnel(&mut self, y1: i32, y2: i32, x: i32)
        requires
            old(self).wf(),
            old(self)@.within(x as int, y1 as int),
            old(self)@.within(x as int, y2 as int),
        ensures
            final(self).wf(),
            final(self)@ == old(self)@.carve_v_tunnel(y1 as int, y2 as int, x as int),
    {
        let ghost before = self@;
        let lo: i32 = if y1 <= y2 { y1 } else { y2 };
        let hi: i32 = if y1 <= y2 { y2 } else { y1 };
        let mut y: i32 = lo;
        assert(self@.tiles =~= column_until(before, lo as int, y as int, x as int).tiles);
        while y <= hi
            invariant
                lo <= y <= hi + 1,
                0 <= lo <= hi < before.height,
                0 <= x < before.width,
                before.wf(),
                self.wf(),
                self@ == column_until(before, lo as int, y as int, x as int),
            decreases hi + 1 - y,
        {
            let ghost mid = self@;
            self.dig(x, y);
            proof {
                let next = column_until(before, lo as int, y + 1, x as int);
                lemma_coordinate_of_index(before, x as int, y as int);
                assert forall|i: int| 0 <= i < before.tiles.len() implies self@.tiles[i]
                    == next.tiles[i] by {
                    lemma_index_joins(before.width, i);
                    if i != before.index_of(x as int, y as int) {
                        assert(self@.tiles[i] == mid.tiles[i]);
                    }
                }
                assert(self@.tiles =~= next.tiles);
            }
            y = y + 1;
        }
        assert(self@.tiles =~= before.carve_v_tunnel(y1 as int, y2 as int, x as int).tiles);
    }
}

/// The grid `before` with floor on the cells strictly inside `rect` that come
/// before `(x, y)` when the cells are taken column by column.
spec fn room_until(before: GridView, rect: Rect, x: int, y: int) -> GridView {
    GridView {
        tiles: Seq::new(
            before.tiles.len(),
            |i: int|
                if rect.inside(i % before.width, i / before.width) && (i % before.width < x || (i
                    % before.width == x && i / before.width < y)) {
                    Tile::empty()
                } else {
                    before.tiles[i]
                },
        ),
        ..before
    }
}

/// The grid `before` with floor on the cells of row `y` from column `lo` up
/// to, but not including, column `x`.
spec fn row_until(before: GridView, lo: int, x: int, y: int) -> GridView {
    GridView {
        tiles: Seq::new(
            before.tiles.len(),
            |i: int|
                if i / before.width == y && lo <= i % before.width < x {
                    Tile::empty()
                } else {
                    before.tiles[i]
                },
        ),
        ..before
    }
}

/// The grid `before` with floor on the cells of column `x` from row `lo` up
/// to, but not including, row `y`.
spec fn column_until(before: GridView, lo: int, y: int, x: int) -> GridView {
    GridView {
        tiles: Seq::new(
            before.tiles.len(),
            |i: int|
                if i % before.width == x && lo <= i / before.width < y {
                    Tile::empty()
                } else {
                    before.tiles[i]
                },
        ),
        ..before
    }
}

/// An index built from an in-range column and a row gives both back.
pub proof fn lemma_index_splits(width: int, x: int, y: int)
    requires
        0 <= x < width,
    ensures
        (x + y * width) % width == x,
        (x + y * width) / width == y,
{
    vstd::arithmetic::div_mod::lemma_fundamental_div_mod_converse(x + y * width, width, y, x);
}

/// An index is rebuilt from its column and its row.
pub proof fn lemma_index_joins(width: int, i: int)
    requires
        width > 0,
    ensures
        0 <= i % width < width,
        i % width + (i / width) * width == i,
{
    vstd::arithmetic::div_mod::lemma_fundamental_div_mod(i, width);
    assert((i / width) * width == width * (i / width)) by (nonlinear_arith);
}

/// The cells of a grid and the indices of its tiles correspond one to one:
/// an index stays within the sequence exactly when its cell is within the grid.
pub proof fn lemma_index_in_range(g: GridView, x: int, y: int)
    requires
        g.wf(),
        0 <= x < g.width,
    ensures
        g.within(x, y) <==> 0 <= g.index_of(x, y) < g.tiles.len(),
{
    let w = g.width;
    let h = g.height;
    if 0 <= y < h {
        assert(y * w <= (h - 1) * w) by (nonlinear_arith)
            requires
                y <= h - 1,
                w > 0,
        ;
        assert((h - 1) * w == h * w - w) by (nonlinear_arith);
        assert(y * w >= 0) by (nonlinear_arith)
            requires
                y >= 0,
                w > 0,
        ;
        assert(w * h == h * w) by (nonlinear_arith);
    } else if y < 0 {
        assert(y * w <= -w) by (nonlinear_arith)
            requires
                y <= -1,
                w > 0,
        ;
    } else {
        assert(y * w >= h * w) by (nonlinear_arith)
            requires
                y >= h,
                w > 0,
        ;
        assert(w * h == h * w) by (nonlinear_arith);
    }
}

/// Going from an index to its cell and back gives the index, and the cell is
/// within the grid.
pub proof fn lemma_index_of_coordinate(g: GridView, i: int)
    requires
        g.wf(),
        0 <= i < g.width * g.height,
    ensures
        g.within(g.coordinate_of(i).0, g.coordinate_of(i).1),
        g.index_of(g.coordinate_of(i).0, g.coordinate_of(i).1) == i,
{
    lemma_index_joins(g.width, i);
    lemma_index_in_range(g, i % g.width, i / g.width);
}

/// Going from a cell of the grid to its index and back gives the cell, and
/// the index is within the sequence of tiles.
pub proof fn lemma_coordinate_of_index(g: GridView, x: int, y: int)
    requires
        g.wf(),
        g.within(x, y),
    ensures
        0 <= g.index_of(x, y) < g.width * g.height,
        g.coordinate_of(g.index_of(x, y)) == (x, y),
{
    lemma_index_splits(g.width, x, y);
    lemma_index_in_range(g, x, y);
}

/// A solid grid is sound, and every one of its cells holds the wall tile.
pub proof fn lemma_solid_is_rock(width: int, height: int)
    requires
        width > 0,
        height > 0,
    ensures
        GridView::solid(width, height).wf(),
        forall|x: int, y: int|
            GridView::solid(width, height).within(x, y) ==> #[trigger] GridView::solid(
                width,
                height,
            ).tile_at(x, y) == Tile::wall(),
{
    let g = GridView::solid(width, height);
    assert(width * height >= 0) by (nonlinear_arith)
        requires
            width > 0,
            height > 0,
    ;
    assert forall|x: int, y: int| g.within(x, y) implies #[trigger] g.tile_at(x, y)
        == Tile::wall() by {
        lemma_coordinate_of_index(g, x, y);
    }
}

/// Carving a room keeps the grid's size, turns the cells strictly inside the
/// rectangle into floor and leaves every other cell, the rectangle's border
/// included, as it was. So no floor is lost.
pub proof fn lemma_carve_room_cells(g: GridView, rect: Rect)
    requires
        g.wf(),
    ensures
        g.carve_room(rect).wf(),
        g.carve_room(rect).width == g.width,
        g.carve_room(rect).height == g.height,
        g.floor_kept_by(g.carve_room(rect)),
        forall|x: int, y: int|
            g.within(x, y) ==> #[trigger] g.carve_room(rect).tile_at(x, y) == (if rect.inside(
                x,
                y,
            ) {
                Tile::empty()
            } else {
                g.tile_at(x, y)
            }),
{
    assert forall|x: int, y: int| g.within(x, y) implies #[trigger] g.carve_room(rect).tile_at(
        x,
        y,
    ) == (if rect.inside(x, y) {
        Tile::empty()
    } else {
        g.tile_at(x, y)
    }) by {
        lemma_coordinate_of_index(g, x, y);
    }
}

/// Carving a horizontal tunnel keeps the grid's size, turns the cells of the
/// row between the two columns into floor and leaves every other cell as it
/// was. So no floor is lost.
pub proof fn lemma_carve_h_tunnel_cells(g: GridView, x1: int, x2: int, row: int)
    requires
        g.wf(),
    ensures
        g.carve_h_tunnel(x1, x2, row).wf(),
        g.carve_h_tunnel(x1, x2, row).width == g.width,
        g.carve_h_tunnel(x1, x2, row).height == g.height,
        g.floor_kept_by(g.carve_h_tunnel(x1, x2, row)),
        forall|x: int, y: int|
            g.within(x, y) ==> #[trigger] g.carve_h_tunnel(x1, x2, row).tile_at(x, y) == (
            if GridView::on_h_tunnel(x1, x2, row, x, y) {
                Tile::empty()
            } else {
                g.tile_at(x, y)
            }),
{
    assert forall|x: int, y: int| g.within(x, y) implies #[trigger] g.carve_h_tunnel(
        x1,
        x2,
        row,
    ).tile_at(x, y) == (if GridView::on_h_tunnel(x1, x2, row, x, y) {
        Tile::empty()
    } else {
        g.tile_at(x, y)
    }) by {
        lemma_coordinate_of_index(g, x, y);
    }
}

/// Carving a vertical tunnel keeps the grid's size, turns the cells of the
/// column between the two rows into floor and leaves every other cell as it
/// was. So no floor is lost.
pub proof fn lemma_carve_v_tunnel_cells(g: GridView, y1: int, y2: int, col: int)
    requires
        g.wf(),
    ensures
        g.carve_v_tunnel(y1, y2, col).wf(),
        g.carve_v_tunnel(y1, y2, col).width == g.width,
        g.carve_v_tunnel(y1, y2, col).height == g.height,
        g.floor_kept_by(g.carve_v_tunnel(y1, y2, col)),
        forall|x: int, y: int|
            g.within(x, y) ==> #[trigger] g.carve_v_tunnel(y1, y2, col).tile_at(x, y) == (
            if GridView::on_v_tunnel(y1, y2, col, x, y) {
                Tile::empty()
            } else {
                g.tile_at(x, y)
            }),
{
    assert forall|x: int, y: int| g.within(x, y) implies #[trigger] g.carve_v_tunnel(
        y1,
        y2,
        col,
    ).tile_at(x, y) == (if GridView::on_v_tunnel(y1, y2, col, x, y) {
        Tile::empty()
    } else {
        g.tile_at(x, y)
    }) by {
        lemma_coordinate_of_index(g, x, y);
    }
}

/// A tunnel does not depend on the order in which its two ends are given.
pub proof fn lemma_tunnel_ends_commute(g: GridView, a: int, b: int, line: int)
    ensures
        g.carve_h_tunnel(a, b, line) == g.carve_h_tunnel(b, a, line),
        g.carve_v_tunnel(a, b, line) == g.carve_v_tunnel(b, a, line),
{
    assert(g.carve_h_tunnel(a, b, line).tiles =~= g.carve_h_tunnel(b, a, line).tiles);
    assert(g.carve_v_tunnel(a, b, line).tiles =~= g.carve_v_tunnel(b, a, line).tiles);
}

} // verus!
