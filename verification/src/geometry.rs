use vstd::prelude::*;

verus! {

/// A grid coordinate. Also used for entity positions.
#[derive(Clone, Copy, PartialEq, Eq, Structural, Debug)]
pub struct Point {
    pub x: i32,
    pub y: i32,
}

impl Point {
    pub fn new(x: i32, y: i32) -> (p: Point)
        ensures
            p == (Point { x, y }),
    {
        Point { x, y }
    }

    pub fn zero() -> (p: Point)
        ensures
            p == (Point { x: 0, y: 0 }),
    {
        Point { x: 0, y: 0 }
    }
}

/// The four unit directions an entity can step in.
#[derive(Clone, Copy, PartialEq, Eq, Structural, Debug)]
pub enum Direction {
    Left,
    Right,
    Up,
    Down,
}

/// The unit offset of a direction, as (dx, dy).
pub open spec fn spec_delta(d: Direction) -> (int, int) {
    match d {
        Direction::Left => (-1int, 0int),
        Direction::Right => (1int, 0int),
        Direction::Up => (0int, -1int),
        Direction::Down => (0int, 1int),
    }
}

/// The neighbour of `p` one step in direction `d`.
pub open spec fn spec_step(p: Point, d: Direction) -> Point {
    Point { x: (p.x + spec_delta(d).0) as i32, y: (p.y + spec_delta(d).1) as i32 }
}

/// True when `b` is exactly one orthogonal step away from `a`.
pub open spec fn unit_step(a: Point, b: Point) -> bool {
    exists|d: Direction| b == spec_step(a, d)
}

/// The neighbour of `p` one step in direction `d`.
pub fn step(p: Point, d: Direction) -> (q: Point)
    requires
        i32::MIN < p.x < i32::MAX,
        i32::MIN < p.y < i32::MAX,
    ensures
        q == spec_step(p, d),
{
    match d {
        Direction::Left => Point { x: p.x - 1, y: p.y },
        Direction::Right => Point { x: p.x + 1, y: p.y },
        Direction::Up => Point { x: p.x, y: p.y - 1 },
        Direction::Down => Point { x: p.x, y: p.y + 1 },
    }
}

/// An axis-aligned rectangle. A room covers the tiles with
/// `x1 <= x < x2` and `y1 <= y < y2`; `x2` and `y2` are exclusive.
#[derive(Clone, Copy, PartialEq, Eq, Structural, Debug)]
pub struct Rect {
    pub x1: i32,
    pub x2: i32,
    pub y1: i32,
    pub y2: i32,
}

/// The centre tile of a rectangle.
pub open spec fn spec_center(r: Rect) -> Point {
    Point { x: ((r.x1 + r.x2) / 2) as i32, y: ((r.y1 + r.y2) / 2) as i32 }
}

/// Two rectangles intersect when their closed coordinate ranges overlap
/// on both axes; rectangles that merely touch count as intersecting.
pub open spec fn spec_intersect(a: Rect, b: Rect) -> bool {
    a.x1 <= b.x2 && a.x2 >= b.x1 && a.y1 <= b.y2 && a.y2 >= b.y1
}

/// True when `p` is one of the tiles covered by `r`.
pub open spec fn spec_point_in_rect(r: Rect, p: Point) -> bool {
    r.x1 <= p.x < r.x2 && r.y1 <= p.y < r.y2
}

impl Rect {
    /// A rectangle from its top-left corner and its width and height.
    pub fn with_size(x: i32, y: i32, w: i32, h: i32) -> (r: Rect)
        requires
            i32::MIN <= x + w <= i32::MAX,
            i32::MIN <= y + h <= i32::MAX,
        ensures
            r == (Rect { x1: x, x2: (x + w) as i32, y1: y, y2: (y + h) as i32 }),
    {
        Rect { x1: x, x2: x + w, y1: y, y2: y + h }
    }

    /// The centre tile. Coordinates are required to be non-negative so that
    /// the machine division rounds the same way as the mathematical one.
    pub fn center(&self) -> (c: Point)
        requires
            0 <= self.x1 + self.x2 <= i32::MAX,
            0 <= self.y1 + self.y2 <= i32::MAX,
        ensures
            c == spec_center(*self),
    {
        Point { x: (self.x1 + self.x2) / 2, y: (self.y1 + self.y2) / 2 }
    }

    /// Overlap test used to accept or reject a candidate room.
    pub fn intersect(&self, other: &Rect) -> (r: bool)
        ensures
            r == spec_intersect(*self, *other),
    {
        self.x1 <= other.x2 && self.x2 >= other.x1 && self.y1 <= other.y2 && self.y2 >= other.y1
    }
}

} // verus!
