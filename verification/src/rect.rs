use vstd::prelude::*;

verus! {

/// The middle of `a` and `b`, rounded toward zero.
pub open spec fn midpoint(a: int, b: int) -> int {
    if a + b >= 0 {
        (a + b) / 2
    } else {
        -((-(a + b)) / 2)
    }
}

/// An axis-aligned rectangle given by two opposite corners. As a room
/// footprint it is the outer bounding box: the walls stand on its border and
/// the floor lies strictly inside.
#[derive(Clone, Copy, Debug, PartialEq, Eq, Structural)]
pub struct Rect {
    pub x1: i32,
    pub y1: i32,
    pub x2: i32,
    pub y2: i32,
}

impl Rect {
    /// The corners are in order on both axes.
    pub open spec fn ordered(self) -> bool {
        self.x1 <= self.x2 && self.y1 <= self.y2
    }

    /// `(x, y)` lies in the closed bounding box.
    pub open spec fn covers(self, x: int, y: int) -> bool {
        self.x1 <= x <= self.x2 && self.y1 <= y <= self.y2
    }

    /// `(x, y)` lies strictly inside the bounding box.
    pub open spec fn inside(self, x: int, y: int) -> bool {
        self.x1 < x < self.x2 && self.y1 < y < self.y2
    }

    /// The centroid, each coordinate rounded toward zero.
    pub open spec fn center_point(self) -> (int, int) {
        (midpoint(self.x1 as int, self.x2 as int), midpoint(self.y1 as int, self.y2 as int))
    }

    /// The closed bounding boxes overlap; touching borders count.
    pub open spec fn intersects(self, other: Rect) -> bool {
        !(other.x2 < self.x1 || other.x1 > self.x2 || other.y2 < self.y1 || other.y1 > self.y2)
    }

    /// The rectangle with corner `(x1, y1)`, width `w` and height `h`.
    pub fn new(x1: i32, y1: i32, w: i32, h: i32) -> (rect: Rect)
        requires
            i32::MIN <= x1 + w <= i32::MAX,
            i32::MIN <= y1 + h <= i32::MAX,
        ensures
            rect.x1 == x1,
            rect.y1 == y1,
            rect.x2 == x1 + w,
            rect.y2 == y1 + h,
    {
        Rect { x1, y1, x2: x1 + w, y2: y1 + h }
    }

    /// The centroid of the bounding box.
    pub fn center(&self) -> (c: (i32, i32))
        ensures
            (c.0 as int, c.1 as int) == self.center_point(),
    {
        (halfway(self.x1, self.x2), halfway(self.y1, self.y2))
    }

    /// Whether the two bounding boxes overlap, borders included.
    pub fn is_intersected(&self, other: &Rect) -> (hit: bool)
        ensures
            hit == self.intersects(*other),
    {
        !(other.x2 < self.x1 || other.x1 > self.x2 || other.y2 < self.y1 || other.y1 > self.y2)
    }
}

/// The midpoint of two coordinates, computed in 64 bits so that the sum
/// cannot overflow.
fn halfway(a: i32, b: i32) -> (m: i32)
    ensures
        m == midpoint(a as int, b as int),
{
    let sum: i64 = a as i64 + b as i64;
    if sum >= 0 {
        (sum / 2) as i32
    } else {
        (-((-sum) / 2)) as i32
    }
}

/// The midpoint lies between its two arguments.
pub proof fn lemma_midpoint_between(a: int, b: int)
    requires
        a <= b,
    ensures
        a <= midpoint(a, b) <= b,
        a + 2 <= b ==> a < midpoint(a, b) < b,
{
}

/// Intersection does not depend on which rectangle asks.
pub proof fn lemma_intersects_symmetric(a: Rect, b: Rect)
    ensures
        a.intersects(b) == b.intersects(a),
{
}

/// Two ordered rectangles intersect exactly when some point lies in both
/// closed bounding boxes.
pub proof fn lemma_intersects_iff_common_point(a: Rect, b: Rect)
    requires
        a.ordered(),
        b.ordered(),
    ensures
        a.intersects(b) <==> exists|x: int, y: int| #[trigger] a.covers(x, y) && b.covers(x, y),
{
    if a.intersects(b) {
        let x = if a.x1 >= b.x1 { a.x1 as int } else { b.x1 as int };
        let y = if a.y1 >= b.y1 { a.y1 as int } else { b.y1 as int };
        assert(a.covers(x, y) && b.covers(x, y));
    }
}

/// Two ordered rectangles that meet only along a border, side by side or one
/// above the other, intersect.
pub proof fn lemma_shared_edge_intersects(a: Rect, b: Rect)
    requires
        a.ordered(),
        b.ordered(),
        (a.x2 == b.x1 && a.y1 <= b.y2 && b.y1 <= a.y2) || (a.y2 == b.y1 && a.x1 <= b.x2 && b.x1
            <= a.x2),
    ensures
        a.intersects(b),
        b.intersects(a),
{
}

/// Between a cell strictly inside one rectangle and a cell strictly inside
/// another that does not intersect it lie at least two cells along a row or
/// along a column: rooms that are apart keep their walls.
pub proof fn lemma_apart_keep_walls(a: Rect, b: Rect, p: (int, int), q: (int, int))
    requires
        !a.intersects(b),
        a.inside(p.0, p.1),
        b.inside(q.0, q.1),
    ensures
        p.0 - q.0 >= 3 || q.0 - p.0 >= 3 || p.1 - q.1 >= 3 || q.1 - p.1 >= 3,
{
}

} // verus!
