use crate::grid::{
    lemma_carve_h_tunnel_cells, lemma_carve_room_cells, lemma_carve_v_tunnel_cells, GridView,
};
use crate::path::{
    lemma_connected_survives, lemma_connected_symmetric, lemma_connected_transitive,
    lemma_floor_kept_transitive, lemma_h_tunnel_connects, lemma_v_tunnel_connects,
};
use crate::rect::{lemma_midpoint_between, Rect};
use crate::tile::Tile;
use vstd::prelude::*;

verus! {

/// No two of the rooms intersect.
pub open spec fn rooms_apart(rooms: Seq<Rect>) -> bool {
    forall|i: int, j: int|
        0 <= i < j < rooms.len() ==> !(#[trigger] rooms[i]).intersects(#[trigger] rooms[j])
}

/// `room` intersects one of `rooms`.
pub open spec fn hits_any(rooms: Seq<Rect>, room: Rect) -> bool {
    exists|i: int| 0 <= i < rooms.len() && room.intersects(#[trigger] rooms[i])
}

/// The grid after an L-shaped tunnel was carved from `from` to `to`: along
/// the column of `from` and then the row of `to` if `vertical_first`, along
/// the row of `from` and then the column of `to` otherwise.
pub open spec fn connect(
    grid: GridView,
    from: (int, int),
    to: (int, int),
    vertical_first: bool,
) -> GridView {
    if vertical_first {
        grid.carve_v_tunnel(from.1, to.1, from.0).carve_h_tunnel(from.0, to.0, to.1)
    } else {
        grid.carve_h_tunnel(from.0, to.0, from.1).carve_v_tunnel(from.1, to.1, to.0)
    }
}

/// The grid after `room` was accepted: joined by a tunnel to the center of
/// the room accepted before it, if there is one, and then carved.
pub open spec fn with_room(
    grid: GridView,
    previous: Option<Rect>,
    room: Rect,
    vertical_first: bool,
) -> GridView {
    match previous {
        None => grid.carve_room(room),
        Some(last) => connect(
            grid,
            last.center_point(),
            room.center_point(),
            vertical_first,
        ).carve_room(room),
    }
}

/// The last of `rooms`, if there is one.
pub open spec fn last_room(rooms: Seq<Rect>) -> Option<Rect> {
    if rooms.len() == 0 {
        None
    } else {
        Some(rooms.last())
    }
}

/// The grid after `rooms` were accepted in turn on `base`, room `k` joined to
/// room `k - 1` by the tunnel that `elbows[k]` chooses.
pub open spec fn layout(base: GridView, rooms: Seq<Rect>, elbows: Seq<bool>) -> GridView
    decreases rooms.len(),
{
    if rooms.len() == 0 {
        base
    } else {
        with_room(
            layout(base, rooms.drop_last(), elbows.drop_last()),
            last_room(rooms.drop_last()),
            rooms.last(),
            elbows.last(),
        )
    }
}

/// The center of a rectangle that the grid holds is a cell of the grid, and
/// lies in the rectangle.
pub proof fn lemma_center_within(grid: GridView, rect: Rect)
    requires
        grid.holds(rect),
    ensures
        grid.within(rect.center_point().0, rect.center_point().1),
        rect.covers(rect.center_point().0, rect.center_point().1),
{
    lemma_midpoint_between(rect.x1 as int, rect.x2 as int);
    lemma_midpoint_between(rect.y1 as int, rect.y2 as int);
}

/// An L-shaped tunnel between two cells of the grid keeps the grid's size
/// and its floor, and connects the two cells.
pub proof fn lemma_connect_joins(
    grid: GridView,
    from: (int, int),
    to: (int, int),
    vertical_first: bool,
)
    requires
        grid.wf(),
        grid.within(from.0, from.1),
        grid.within(to.0, to.1),
    ensures
        connect(grid, from, to, vertical_first).wf(),
        grid.floor_kept_by(connect(grid, from, to, vertical_first)),
        connect(grid, from, to, vertical_first).connected(from, to),
{
    if vertical_first {
        let first = grid.carve_v_tunnel(from.1, to.1, from.0);
        let second = first.carve_h_tunnel(from.0, to.0, to.1);
        let elbow = (from.0, to.1);
        lemma_carve_v_tunnel_cells(grid, from.1, to.1, from.0);
        lemma_carve_h_tunnel_cells(first, from.0, to.0, to.1);
        lemma_floor_kept_transitive(grid, first, second);
        lemma_v_tunnel_connects(grid, from.1, to.1, from.0);
        lemma_connected_survives(first, second, from, elbow);
        lemma_h_tunnel_connects(first, from.0, to.0, to.1);
        lemma_connected_transitive(second, from, elbow, to);
    } else {
        let first = grid.carve_h_tunnel(from.0, to.0, from.1);
        let second = first.carve_v_tunnel(from.1, to.1, to.0);
        let elbow = (to.0, from.1);
        lemma_carve_h_tunnel_cells(grid, from.0, to.0, from.1);
        lemma_carve_v_tunnel_cells(first, from.1, to.1, to.0);
        lemma_floor_kept_transitive(grid, first, second);
        lemma_h_tunnel_connects(grid, from.0, to.0, from.1);
        lemma_connected_survives(first, second, from, elbow);
        lemma_v_tunnel_connects(first, from.1, to.1, to.0);
        lemma_connected_transitive(second, from, elbow, to);
    }
}

/// Accepting a room keeps the grid's size and its floor. Where a room was
/// accepted before it, the centers of the two are connected afterwards.
pub proof fn lemma_with_room_joins(
    grid: GridView,
    previous: Option<Rect>,
    room: Rect,
    vertical_first: bool,
)
    requires
        grid.wf(),
        grid.holds(room),
        previous matches Some(last) ==> grid.holds(last),
    ensures
        with_room(grid, previous, room, vertical_first).wf(),
        grid.floor_kept_by(with_room(grid, previous, room, vertical_first)),
        previous matches Some(last) ==> with_room(
            grid,
            previous,
            room,
            vertical_first,
        ).connected(last.center_point(), room.center_point()),
{
    match previous {
        None => {
            lemma_carve_room_cells(grid, room);
        },
        Some(last) => {
            let from = last.center_point();
            let to = room.center_point();
            lemma_center_within(grid, last);
            lemma_center_within(grid, room);
            let joined = connect(grid, from, to, vertical_first);
            lemma_connect_joins(grid, from, to, vertical_first);
            lemma_carve_room_cells(joined, room);
            lemma_floor_kept_transitive(grid, joined, joined.carve_room(room));
            lemma_connected_survives(joined, joined.carve_room(room), from, to);
        },
    }
}

/// A layout has the size of the grid it was laid out on, and at least its
/// floor.
pub proof fn lemma_layout_keeps_floor(base: GridView, rooms: Seq<Rect>, elbows: Seq<bool>)
    requires
        base.wf(),
        forall|k: int| 0 <= k < rooms.len() ==> base.holds(#[trigger] rooms[k]),
    ensures
        layout(base, rooms, elbows).wf(),
        base.floor_kept_by(layout(base, rooms, elbows)),
    decreases rooms.len(),
{
    if rooms.len() > 0 {
        let before = layout(base, rooms.drop_last(), elbows.drop_last());
        lemma_layout_keeps_floor(base, rooms.drop_last(), elbows.drop_last());
        let previous = last_room(rooms.drop_last());
        assert(previous matches Some(last) ==> base.holds(last)) by {
            if rooms.len() > 1 {
                assert(rooms.drop_last().last() == rooms[rooms.len() - 2]);
            }
        }
        lemma_with_room_joins(before, previous, rooms.last(), elbows.last());
        lemma_floor_kept_transitive(base, before, layout(base, rooms, elbows));
    }
}

/// In a layout on a grid that holds the rooms, every cell strictly inside a
/// room is floor.
pub proof fn lemma_layout_carves_rooms(
    base: GridView,
    rooms: Seq<Rect>,
    elbows: Seq<bool>,
    k: int,
    x: int,
    y: int,
)
    requires
        base.wf(),
        forall|i: int| 0 <= i < rooms.len() ==> base.holds(#[trigger] rooms[i]),
        0 <= k < rooms.len(),
        rooms[k].inside(x, y),
    ensures
        layout(base, rooms, elbows).is_floor(x, y),
    decreases rooms.len(),
{
    let earlier = rooms.drop_last();
    let before = layout(base, earlier, elbows.drop_last());
    let previous = last_room(earlier);
    lemma_layout_keeps_floor(base, earlier, elbows.drop_last());
    assert(previous matches Some(last) ==> base.holds(last)) by {
        if rooms.len() > 1 {
            assert(earlier.last() == rooms[rooms.len() - 2]);
        }
    }
    assert(base.holds(rooms.last()));
    lemma_with_room_joins(before, previous, rooms.last(), elbows.last());
    if k == rooms.len() - 1 {
        let joined = match previous {
            None => before,
            Some(last) => connect(
                before,
                last.center_point(),
                rooms.last().center_point(),
                elbows.last(),
            ),
        };
        if previous is Some {
            lemma_center_within(before, previous->0);
            lemma_center_within(before, rooms.last());
            lemma_connect_joins(
                before,
                previous->0.center_point(),
                rooms.last().center_point(),
                elbows.last(),
            );
        }
        lemma_carve_room_cells(joined, rooms.last());
        assert(joined.within(x, y));
        assert(joined.carve_room(rooms.last()).tile_at(x, y) == Tile::empty());
    } else {
        assert(earlier[k] == rooms[k]);
        lemma_layout_carves_rooms(base, earlier, elbows.drop_last(), k, x, y);
        assert(before.is_floor(x, y));
    }
}

/// In a layout of two rooms or more, the center of every room is connected
/// to the center of the last room.
proof fn lemma_layout_reaches_last(base: GridView, rooms: Seq<Rect>, elbows: Seq<bool>, i: int)
    requires
        base.wf(),
        forall|k: int| 0 <= k < rooms.len() ==> base.holds(#[trigger] rooms[k]),
        rooms.len() >= 2,
        0 <= i < rooms.len(),
    ensures
        layout(base, rooms, elbows).connected(
            rooms[i].center_point(),
            rooms.last().center_point(),
        ),
    decreases rooms.len(),
{
    let n = rooms.len() - 1;
    let earlier = rooms.drop_last();
    let before = layout(base, earlier, elbows.drop_last());
    let after = layout(base, rooms, elbows);
    let previous = rooms[n - 1];
    assert(last_room(earlier) == Some(previous));
    lemma_layout_keeps_floor(base, earlier, elbows.drop_last());
    assert(base.holds(previous));
    assert(base.holds(rooms[n]));
    lemma_with_room_joins(before, Some(previous), rooms[n], elbows.last());
    let from = previous.center_point();
    let to = rooms[n].center_point();
    assert(after.connected(from, to));
    if i == n {
        lemma_connected_symmetric(after, from, to);
        lemma_connected_transitive(after, to, from, to);
    } else if i == n - 1 {
    } else {
        assert(earlier[i] == rooms[i]);
        lemma_layout_reaches_last(base, earlier, elbows.drop_last(), i);
        lemma_connected_survives(before, after, rooms[i].center_point(), from);
        lemma_connected_transitive(after, rooms[i].center_point(), from, to);
    }
}

/// In a layout of two rooms or more, on a grid that holds them all, the
/// center of every room is connected to the center of every other room by a
/// walk over floor.
pub proof fn lemma_layout_connected(
    base: GridView,
    rooms: Seq<Rect>,
    elbows: Seq<bool>,
    i: int,
    j: int,
)
    requires
        base.wf(),
        forall|k: int| 0 <= k < rooms.len() ==> base.holds(#[trigger] rooms[k]),
        rooms.len() >= 2,
        0 <= i < rooms.len(),
        0 <= j < rooms.len(),
    ensures
        layout(base, rooms, elbows).connected(rooms[i].center_point(), rooms[j].center_point()),
{
    let after = layout(base, rooms, elbows);
    let last = rooms.last().center_point();
    lemma_layout_reaches_last(base, rooms, elbows, i);
    lemma_layout_reaches_last(base, rooms, elbows, j);
    lemma_connected_symmetric(after, rooms[j].center_point(), last);
    lemma_connected_transitive(after, rooms[i].center_point(), last, rooms[j].center_point());
}

/// Laying out one room more is accepting it on the layout of the others.
pub proof fn lemma_layout_push(
    base: GridView,
    rooms: Seq<Rect>,
    elbows: Seq<bool>,
    room: Rect,
    vertical_first: bool,
)
    ensures
        layout(base, rooms.push(room), elbows.push(vertical_first)) == with_room(
            layout(base, rooms, elbows),
            last_room(rooms),
            room,
            vertical_first,
        ),
{
    assert(rooms.push(room).drop_last() =~= rooms);
    assert(elbows.push(vertical_first).drop_last() =~= elbows);
}

} // verus!
