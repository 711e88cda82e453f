use crate::grid::{lemma_solid_is_rock, Grid, GridError, GridView};
use crate::layout::{
    hits_any, last_room, layout, lemma_center_within, lemma_layout_carves_rooms,
    lemma_layout_connected, lemma_layout_push, rooms_apart, with_room,
};
use crate::object::Object;
use crate::rect::{lemma_midpoint_between, Rect};
use rand::rngs::StdRng;
use rand::Rng;
use vstd::prelude::*;

verus! {

/// The number of columns of the standard grid.
pub const MAP_WIDTH: i32 = 80;

/// The number of rows of the standard grid.
pub const MAP_HEIGHT: i32 = 50;

/// The bound under which the sides of a standard room stay.
pub const ROOM_MAX_SIZE: i32 = 10;

/// The least side of a standard room.
pub const ROOM_MIN_SIZE: i32 = 6;

/// How many rooms are tried for the standard dungeon.
pub const MAX_ROOMS: i32 = 30;

/// `rand::rngs::StdRng`, the generator of pseudo-random numbers that the
/// dungeon is drawn from. Nothing is known of what it holds.
#[verifier::external_type_specification]
#[verifier::external_body]
pub struct ExStdRng(StdRng);

/// `rand::Rng::gen_range` on a `StdRng`, for `i32`: a number drawn from
/// `low` up to, but not including, `high`. The call panics unless
/// `low < high`. Which number comes depends on the state of the generator,
/// of which nothing is said.
#[verifier::external_body]
fn roll(rng: &mut StdRng, low: i32, high: i32) -> (drawn: i32)
    requires
        low < high,
    ensures
        low <= drawn < high,
{
    rng.gen_range(low, high)
}

/// `rand::Rng::gen` on a `StdRng`, for `bool`: either value may come.
#[verifier::external_body]
fn flip(rng: &mut StdRng) -> (drawn: bool) {
    rng.gen()
}

/// The size of the grid and the bounds within which rooms are drawn.
#[derive(Clone, Copy, Debug, PartialEq, Eq, Structural)]
pub struct Config {
    /// The number of columns of the grid.
    pub width: i32,
    /// The number of rows of the grid.
    pub height: i32,
    /// The least width and height of a room's bounding box.
    pub room_min_size: i32,
    /// The bound that the width and height of a room's bounding box stay under.
    pub room_max_size: i32,
    /// How many rooms are tried.
    pub max_rooms: i32,
}

impl Config {
    /// Rooms can be drawn: their sizes span a range that is not empty, and
    /// the grid is larger than any of them.
    pub open spec fn valid(self) -> bool {
        &&& 0 <= self.room_min_size < self.room_max_size
        &&& self.room_max_size < self.width
        &&& self.room_max_size < self.height
        &&& self.width * self.height <= usize::MAX
    }

    /// `room` is one of the rectangles that may be drawn: its corner leaves
    /// space for the largest room, and its sides are within the bounds.
    pub open spec fn may_draw(self, room: Rect) -> bool {
        &&& 0 <= room.x1 < self.width - self.room_max_size
        &&& 0 <= room.y1 < self.height - self.room_max_size
        &&& self.room_min_size <= room.x2 - room.x1 < self.room_max_size
        &&& self.room_min_size <= room.y2 - room.y1 < self.room_max_size
    }

    /// How many rooms are tried, which is none where `max_rooms` is negative.
    pub open spec fn attempts(self) -> int {
        if self.max_rooms > 0 {
            self.max_rooms as int
        } else {
            0
        }
    }

    /// Whether rooms can be drawn with this configuration.
    pub fn is_valid(&self) -> (ok: bool)
        ensures
            ok == self.valid(),
    {
        if 0 <= self.room_min_size && self.room_min_size < self.room_max_size
            && self.room_max_size < self.width && self.room_max_size < self.height {
            assert(self.width * self.height <= 0x7fff_ffff * 0x7fff_ffff) by (nonlinear_arith)
                requires
                    0 < self.width <= 0x7fff_ffff,
                    0 < self.height <= 0x7fff_ffff,
            ;
            let cells: u64 = self.width as u64 * self.height as u64;
            cells <= usize::MAX as u64
        } else {
            false
        }
    }
}

impl Default for Config {
    /// A grid of 80 by 50 cells and 30 tries at rooms of 6 to 9 cells a side.
    fn default() -> (config: Config)
        ensures
            config == (Config {
                width: MAP_WIDTH,
                height: MAP_HEIGHT,
                room_min_size: ROOM_MIN_SIZE,
                room_max_size: ROOM_MAX_SIZE,
                max_rooms: MAX_ROOMS,
            }),
            config.valid(),
    {
        Config {
            width: MAP_WIDTH,
            height: MAP_HEIGHT,
            room_min_size: ROOM_MIN_SIZE,
            room_max_size: ROOM_MAX_SIZE,
            max_rooms: MAX_ROOMS,
        }
    }
}

/// The mathematical content of a dungeon: its grid and the rooms accepted
/// so far, in the order in which they were accepted.
pub struct DungeonView {
    pub grid: GridView,
    pub rooms: Seq<Rect>,
}

impl DungeonView {
    /// The grid holds every room, no two rooms intersect, and the grid is
    /// what accepting the rooms in turn makes of solid rock, for some choice
    /// of tunnels.
    pub open spec fn wf(self) -> bool {
        &&& self.grid.wf()
        &&& forall|k: int| 0 <= k < self.rooms.len() ==> self.grid.holds(#[trigger] self.rooms[k])
        &&& rooms_apart(self.rooms)
        &&& exists|elbows: Seq<bool>| self.laid_out_with(elbows)
    }

    /// The grid is what accepting the rooms in turn makes of solid rock when
    /// room `k` is joined to room `k - 1` by the tunnel that `elbows[k]`
    /// chooses.
    pub open spec fn laid_out_with(self, elbows: Seq<bool>) -> bool {
        &&& elbows.len() == self.rooms.len()
        &&& layout(GridView::solid(self.grid.width, self.grid.height), self.rooms, elbows)
            == self.grid
    }

    /// Every cell strictly inside a room is floor.
    pub open spec fn rooms_carved(self) -> bool {
        forall|k: int, x: int, y: int|
            0 <= k < self.rooms.len() && #[trigger] self.rooms[k].inside(x, y)
                ==> self.grid.is_floor(x, y)
    }

    /// Where there are two rooms or more, the center of each is connected to
    /// the center of each other by a walk over floor.
    pub open spec fn centers_connected(self) -> bool {
        forall|i: int, j: int|
            self.rooms.len() >= 2 && 0 <= i < self.rooms.len() && 0 <= j < self.rooms.len()
                ==> self.grid.connected(
                (#[trigger] self.rooms[i]).center_point(),
                (#[trigger] self.rooms[j]).center_point(),
            )
    }
}

/// A grid together with the rooms that were carved into it.
#[derive(Debug)]
pub struct Dungeon {
    map: Grid,
    rooms: Vec<Rect>,
}

impl View for Dungeon {
    type V = DungeonView;

    closed spec fn view(&self) -> DungeonView {
        DungeonView { grid: self.map@, rooms: self.rooms@ }
    }
}

/// In a sound dungeon the rooms are carved and their centers are connected.
pub proof fn lemma_rooms_carved_and_connected(dungeon: DungeonView)
    requires
        dungeon.wf(),
    ensures
        dungeon.rooms_carved(),
        dungeon.centers_connected(),
{
    let base = GridView::solid(dungeon.grid.width, dungeon.grid.height);
    let elbows = choose|elbows: Seq<bool>| dungeon.laid_out_with(elbows);
    lemma_solid_is_rock(dungeon.grid.width, dungeon.grid.height);
    assert forall|k: int, x: int, y: int|
        0 <= k < dungeon.rooms.len() && #[trigger] dungeon.rooms[k].inside(
            x,
            y,
        ) implies dungeon.grid.is_floor(x, y) by {
        lemma_layout_carves_rooms(base, dungeon.rooms, elbows, k, x, y);
    }
    assert forall|i: int, j: int|
        dungeon.rooms.len() >= 2 && 0 <= i < dungeon.rooms.len() && 0 <= j
            < dungeon.rooms.len() implies dungeon.grid.connected(
        (#[trigger] dungeon.rooms[i]).center_point(),
        (#[trigger] dungeon.rooms[j]).center_point(),
    ) by {
        lemma_layout_connected(base, dungeon.rooms, elbows, i, j);
    }
}

impl Dungeon {
    /// The dungeon is sound and the dimensions of its grid fit the signed
    /// coordinates.
    pub open spec fn wf(&self) -> bool {
        &&& self@.wf()
        &&& self@.grid.width <= i32::MAX
        &&& self@.grid.height <= i32::MAX
    }

    /// A dungeon of `w` by `h` cells of solid rock, without rooms.
    pub fn new(w: usize, h: usize) -> (made: Result<Dungeon, GridError>)
        requires
            w <= i32::MAX,
            h <= i32::MAX,
            w * h <= usize::MAX,
        ensures
            made is Ok <==> w > 0 && h > 0,
            made matches Ok(dungeon) ==> dungeon.wf() && dungeon@.grid == GridView::solid(
                w as int,
                h as int,
            ) && dungeon@.rooms.len() == 0,
            made matches Err(e) ==> e == GridError::EmptyDimension,
    {
        if w == 0 || h == 0 {
            return Err(GridError::EmptyDimension);
        }
        Ok(blank(w, h))
    }

    /// The grid.
    pub fn map(&self) -> (map: &Grid)
        ensures
            map@ == self@.grid,
            self.wf() ==> map.wf(),
    {
        &self.map
    }

    /// The rooms, in the order in which they were accepted.
    pub fn rooms(&self) -> (rooms: &Vec<Rect>)
        ensures
            rooms@ == self@.rooms,
    {
        &self.rooms
    }

    /// Gives up the rooms and keeps the grid.
    pub fn into_map(self) -> (map: Grid)
        ensures
            map@ == self@.grid,
            self.wf() ==> map.wf(),
    {
        self.map
    }

    /// Whether `room` intersects a room of the dungeon.
    pub fn intersects_any(&self, room: &Rect) -> (hit: bool)
        ensures
            hit == hits_any(self@.rooms, *room),
    {
        let mut k: usize = 0;
        while k < self.rooms.len()
            invariant
                k <= self.rooms.len(),
                forall|i: int| 0 <= i < k ==> !room.intersects(#[trigger] self.rooms@[i]),
            decreases self.rooms.len() - k,
        {
            if room.is_intersected(&self.rooms[k]) {
                return true;
            }
            k = k + 1;
        }
        false
    }

    /// Accepts `room`. The first room takes `player` to its center. Every
    /// later room is first joined to the room before it by an L-shaped
    /// tunnel between the two centers, which starts along the column if
    /// `vertical_first` and along the row otherwise. Then the room is carved.
    pub fn add_room(&mut self, room: Rect, vertical_first: bool, player: &mut Object)
        requires
            old(self).wf(),
            old(self)@.grid.holds(room),
            !hits_any(old(self)@.rooms, room),
        ensures
            final(self).wf(),
            final(self)@.rooms == old(self)@.rooms.push(room),
            final(self)@.grid == with_room(
                old(self)@.grid,
                last_room(old(self)@.rooms),
                room,
                vertical_first,
            ),
            final(player).glyph == old(player).glyph,
            final(player).color == old(player).color,
            final(player).position() == if old(self)@.rooms.len() == 0 {
                room.center_point()
            } else {
                old(player).position()
            },
    {
        let ghost before = self@;
        let ghost base = GridView::solid(before.grid.width, before.grid.height);
        let ghost elbows = choose|elbows: Seq<bool>| before.laid_out_with(elbows);
        let (cur_x, cur_y) = room.center();
        proof {
            lemma_center_within(before.grid, room);
        }
        if self.rooms.len() == 0 {
            player.x = cur_x;
            player.y = cur_y;
        } else {
            let prev_room = self.rooms[self.rooms.len() - 1];
            let (prev_x, prev_y) = prev_room.center();
            proof {
                lemma_center_within(before.grid, prev_room);
            }
            if vertical_first {
                self.map.create_v_tunnel(prev_y, cur_y, prev_x);
                self.map.create_h_tunnel(prev_x, cur_x, cur_y);
            } else {
                self.map.create_h_tunnel(prev_x, cur_x, prev_y);
                self.map.create_v_tunnel(prev_y, cur_y, cur_x);
            }
        }
        self.map.create_room(room);
        self.rooms.push(room);
        proof {
            lemma_layout_push(base, before.rooms, elbows, room, vertical_first);
            assert(self@.laid_out_with(elbows.push(vertical_first)));
            assert forall|i: int, j: int| 0 <= i < j < self@.rooms.len() implies !(
            #[trigger] self@.rooms[i]).intersects(#[trigger] self@.rooms[j]) by {
                if j == before.rooms.len() {
                    assert(before.rooms[i] == self@.rooms[i]);
                    crate::rect::lemma_intersects_symmetric(room, before.rooms[i]);
                } else {
                    assert(before.rooms[i] == self@.rooms[i]);
                    assert(before.rooms[j] == self@.rooms[j]);
                }
            }
        }
    }
}

/// Draws a dungeon. `config.max_rooms` times a rectangle is drawn from `rng`;
/// one that intersects a room accepted before is dropped, every other one is
/// accepted as `Dungeon::add_room` says, with a tunnel whose shape is drawn
/// from `rng` too. `player` ends at the center of the first room, which is
/// floor if rooms have sides of two cells or more, or where it was if no room
/// was accepted.
pub fn make_map(config: &Config, rng: &mut StdRng, player: &mut Object) -> (dungeon: Dungeon)
    requires
        config.valid(),
    ensures
        dungeon.wf(),
        dungeon@.grid.width == config.width,
        dungeon@.grid.height == config.height,
        dungeon@.rooms.len() <= config.attempts(),
        config.attempts() > 0 ==> dungeon@.rooms.len() > 0,
        forall|k: int|
            0 <= k < dungeon@.rooms.len() ==> config.may_draw(#[trigger] dungeon@.rooms[k]),
        rooms_apart(dungeon@.rooms),
        dungeon@.rooms_carved(),
        dungeon@.centers_connected(),
        final(player).glyph == old(player).glyph,
        final(player).color == old(player).color,
        final(player).position() == if dungeon@.rooms.len() == 0 {
            old(player).position()
        } else {
            dungeon@.rooms[0].center_point()
        },
        dungeon@.rooms.len() > 0 && config.room_min_size >= 2 ==> dungeon@.grid.is_floor(
            final(player).x as int,
            final(player).y as int,
        ),
{
    let mut dungeon = blank(config.width as usize, config.height as usize);
    let mut tried: i32 = 0;
    while tried < config.max_rooms
        invariant
            config.valid(),
            dungeon.wf(),
            dungeon@.grid.width == config.width,
            dungeon@.grid.height == config.height,
            0 <= tried,
            dungeon@.rooms.len() <= tried,
            tried <= config.attempts(),
            tried > 0 ==> dungeon@.rooms.len() > 0,
            forall|k: int|
            0 <= k < dungeon@.rooms.len() ==> config.may_draw(#[trigger] dungeon@.rooms[k]),
            player.glyph == old(player).glyph,
            player.color == old(player).color,
            player.position() == if dungeon@.rooms.len() == 0 {
                old(player).position()
            } else {
                dungeon@.rooms[0].center_point()
            },
        decreases config.max_rooms - tried,
    {
        let x: i32 = roll(rng, 0, config.width - config.room_max_size);
        let y: i32 = roll(rng, 0, config.height - config.room_max_size);
        let w: i32 = roll(rng, config.room_min_size, config.room_max_size);
        let h: i32 = roll(rng, config.room_min_size, config.room_max_size);
        let new_room = Rect::new(x, y, w, h);
        if !dungeon.intersects_any(&new_room) {
            let vertical_first = dungeon.rooms.len() > 0 && flip(rng);
            dungeon.add_room(new_room, vertical_first, player);
        }
        tried = tried + 1;
    }
    proof {
        lemma_rooms_carved_and_connected(dungeon@);
        if dungeon@.rooms.len() > 0 && config.room_min_size >= 2 {
            let first = dungeon@.rooms[0];
            lemma_midpoint_between(first.x1 as int, first.x2 as int);
            lemma_midpoint_between(first.y1 as int, first.y2 as int);
            assert(first.inside(player.x as int, player.y as int));
        }
    }
    dungeon
}

/// A dungeon of solid rock without rooms, for dimensions that are positive.
fn blank(w: usize, h: usize) -> (dungeon: Dungeon)
    requires
        0 < w <= i32::MAX,
        0 < h <= i32::MAX,
        w * h <= usize::MAX,
    ensures
        dungeon.wf(),
        dungeon@.grid == GridView::solid(w as int, h as int),
        dungeon@.rooms.len() == 0,
{
    let dungeon = Dungeon { map: Grid::filled(w, h), rooms: Vec::new() };
    assert(dungeon@.laid_out_with(Seq::empty()));
    dungeon
}

} // verus!
