use crate::grid::{lemma_carve_h_tunnel_cells, lemma_carve_v_tunnel_cells, GridView};
use crate::tile::Tile;
use vstd::prelude::*;

verus! {

/// The two cells are neighbours along a row or a column.
pub open spec fn adjacent(a: (int, int), b: (int, int)) -> bool {
    ||| a.0 == b.0 && (a.1 == b.1 + 1 || b.1 == a.1 + 1)
    ||| a.1 == b.1 && (a.0 == b.0 + 1 || b.0 == a.0 + 1)
}

/// The cell at place `k` of `cells` and the next one are neighbours.
pub open spec fn linked(cells: Seq<(int, int)>, k: int) -> bool {
    adjacent(cells[k], cells[k + 1])
}

impl GridView {
    /// `cells` is a walk over floor: it is not empty, each of its cells is
    /// floor, and each cell is a neighbour of the one before it.
    pub open spec fn is_path(self, cells: Seq<(int, int)>) -> bool {
        &&& cells.len() > 0
        &&& forall|k: int|
            0 <= k < cells.len() ==> self.is_floor((#[trigger] cells[k]).0, cells[k].1)
        &&& forall|k: int| 0 <= k < cells.len() - 1 ==> #[trigger] linked(cells, k)
    }

    /// Some walk over floor leads from `a` to `b`.
    pub open spec fn connected(self, a: (int, int), b: (int, int)) -> bool {
        exists|cells: Seq<(int, int)>|
            #[trigger] self.is_path(cells) && cells.first() == a && cells.last() == b
    }
}

/// A floor cell is connected to itself.
pub proof fn lemma_connected_reflexive(g: GridView, a: (int, int))
    requires
        g.is_floor(a.0, a.1),
    ensures
        g.connected(a, a),
{
    let cells = seq![a];
    assert(g.is_path(cells));
    assert(cells.first() == a && cells.last() == a);
}

/// A walk read backwards is a walk.
pub proof fn lemma_connected_symmetric(g: GridView, a: (int, int), b: (int, int))
    requires
        g.connected(a, b),
    ensures
        g.connected(b, a),
{
    let cells = choose|cells: Seq<(int, int)>|
        #[trigger] g.is_path(cells) && cells.first() == a && cells.last() == b;
    let back = Seq::new(cells.len(), |k: int| cells[cells.len() - 1 - k]);
    assert forall|k: int| 0 <= k < back.len() - 1 implies #[trigger] linked(back, k) by {
        assert(linked(cells, cells.len() - 2 - k));
    }
    assert(g.is_path(back));
    assert(back.first() == b && back.last() == a);
}

/// Two walks that meet make one walk.
pub proof fn lemma_connected_transitive(g: GridView, a: (int, int), b: (int, int), c: (int, int))
    requires
        g.connected(a, b),
        g.connected(b, c),
    ensures
        g.connected(a, c),
{
    let first = choose|cells: Seq<(int, int)>|
        #[trigger] g.is_path(cells) && cells.first() == a && cells.last() == b;
    let second = choose|cells: Seq<(int, int)>|
        #[trigger] g.is_path(cells) && cells.first() == b && cells.last() == c;
    let whole = first + second.drop_first();
    assert forall|k: int| 0 <= k < whole.len() - 1 implies #[trigger] linked(whole, k) by {
        if k < first.len() - 1 {
            assert(linked(first, k));
        } else {
            assert(linked(second, k - (first.len() - 1)));
        }
    }
    assert forall|k: int| 0 <= k < whole.len() implies g.is_floor(
        (#[trigger] whole[k]).0,
        whole[k].1,
    ) by {
        if k < first.len() {
            assert(whole[k] == first[k]);
        } else {
            assert(whole[k] == second[k - first.len() + 1]);
        }
    }
    assert(g.is_path(whole));
    assert(whole.first() == a && whole.last() == c);
}

/// What is connected stays connected when floor is only added.
pub proof fn lemma_connected_survives(g: GridView, later: GridView, a: (int, int), b: (int, int))
    requires
        g.floor_kept_by(later),
        g.connected(a, b),
    ensures
        later.connected(a, b),
{
    let cells = choose|cells: Seq<(int, int)>|
        #[trigger] g.is_path(cells) && cells.first() == a && cells.last() == b;
    assert forall|k: int| 0 <= k < cells.len() implies later.is_floor(
        (#[trigger] cells[k]).0,
        cells[k].1,
    ) by {
        assert(g.is_floor(cells[k].0, cells[k].1));
    }
    assert(later.is_path(cells));
}

/// Keeping floor carries over two steps.
pub proof fn lemma_floor_kept_transitive(g: GridView, mid: GridView, later: GridView)
    requires
        g.floor_kept_by(mid),
        mid.floor_kept_by(later),
    ensures
        g.floor_kept_by(later),
{
    assert forall|x: int, y: int| #[trigger] g.is_floor(x, y) implies later.is_floor(x, y) by {
        assert(mid.is_floor(x, y));
    }
}

/// The two ends of a stretch of floor along a row are connected.
pub proof fn lemma_row_connected(g: GridView, x1: int, x2: int, y: int)
    requires
        forall|x: int| x1 <= x <= x2 || x2 <= x <= x1 ==> #[trigger] g.is_floor(x, y),
    ensures
        g.connected((x1, y), (x2, y)),
{
    let cells = if x1 <= x2 {
        Seq::new((x2 - x1 + 1) as nat, |k: int| (x1 + k, y))
    } else {
        Seq::new((x1 - x2 + 1) as nat, |k: int| (x1 - k, y))
    };
    assert forall|k: int| 0 <= k < cells.len() implies g.is_floor(
        (#[trigger] cells[k]).0,
        cells[k].1,
    ) by {
        assert(g.is_floor(cells[k].0, y));
    }
    assert forall|k: int| 0 <= k < cells.len() - 1 implies #[trigger] linked(cells, k) by {
    }
    assert(g.is_path(cells));
    assert(cells.first() == (x1, y) && cells.last() == (x2, y));
}

/// The two ends of a stretch of floor along a column are connected.
pub proof fn lemma_column_connected(g: GridView, y1: int, y2: int, x: int)
    requires
        forall|y: int| y1 <= y <= y2 || y2 <= y <= y1 ==> #[trigger] g.is_floor(x, y),
    ensures
        g.connected((x, y1), (x, y2)),
{
    let cells = if y1 <= y2 {
        Seq::new((y2 - y1 + 1) as nat, |k: int| (x, y1 + k))
    } else {
        Seq::new((y1 - y2 + 1) as nat, |k: int| (x, y1 - k))
    };
    assert forall|k: int| 0 <= k < cells.len() implies g.is_floor(
        (#[trigger] cells[k]).0,
        cells[k].1,
    ) by {
        assert(g.is_floor(x, cells[k].1));
    }
    assert forall|k: int| 0 <= k < cells.len() - 1 implies #[trigger] linked(cells, k) by {
    }
    assert(g.is_path(cells));
    assert(cells.first() == (x, y1) && cells.last() == (x, y2));
}

/// A horizontal tunnel between two cells of the grid connects them.
pub proof fn lemma_h_tunnel_connects(g: GridView, x1: int, x2: int, y: int)
    requires
        g.wf(),
        g.within(x1, y),
        g.within(x2, y),
    ensures
        g.carve_h_tunnel(x1, x2, y).connected((x1, y), (x2, y)),
{
    let carved = g.carve_h_tunnel(x1, x2, y);
    lemma_carve_h_tunnel_cells(g, x1, x2, y);
    assert forall|x: int| x1 <= x <= x2 || x2 <= x <= x1 implies #[trigger] carved.is_floor(
        x,
        y,
    ) by {
        assert(g.within(x, y));
        assert(GridView::on_h_tunnel(x1, x2, y, x, y));
        assert(carved.tile_at(x, y) == Tile::empty());
    }
    lemma_row_connected(carved, x1, x2, y);
}

/// A vertical tunnel between two cells of the grid connects them.
pub proof fn lemma_v_tunnel_connects(g: GridView, y1: int, y2: int, x: int)
    requires
        g.wf(),
        g.within(x, y1),
        g.within(x, y2),
    ensures
        g.carve_v_tunnel(y1, y2, x).connected((x, y1), (x, y2)),
{
    let carved = g.carve_v_tunnel(y1, y2, x);
    lemma_carve_v_tunnel_cells(g, y1, y2, x);
    assert forall|y: int| y1 <= y <= y2 || y2 <= y <= y1 implies #[trigger] carved.is_floor(
        x,
        y,
    ) by {
        assert(g.within(x, y));
        assert(GridView::on_v_tunnel(y1, y2, x, x, y));
        assert(carved.tile_at(x, y) == Tile::empty());
    }
    lemma_column_connected(carved, y1, y2, x);
}

} // verus!
