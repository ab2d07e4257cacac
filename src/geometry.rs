use vstd::prelude::*;

verus! {

/// Largest magnitude that a coordinate of a body centre may take.
pub const WORLD_LIMIT: i64 = 1_000_000_000;

/// Largest half-extent that a box may have.
pub const MAX_HALF_EXTENT: i64 = 1_000_000_000;

/// Clamps `v` into `[lo, hi]`.
pub open spec fn clamp(v: int, lo: int, hi: int) -> int {
    if v < lo {
        lo
    } else if v > hi {
        hi
    } else {
        v
    }
}

/// Clamps `v` into `[lo, hi]`.
pub fn clamp_i64(v: i64, lo: i64, hi: i64) -> (r: i64)
    requires
        lo <= hi,
    ensures
        r == clamp(v as int, lo as int, hi as int),
{
    if v < lo {
        lo
    } else if v > hi {
        hi
    } else {
        v
    }
}

/// A point of the play field, in milli-pixels.
#[derive(Clone, Copy, Debug, PartialEq, Eq, Structural)]
pub struct Point {
    pub x: i64,
    pub y: i64,
}

impl Point {
    pub open spec fn wf(self) -> bool {
        -WORLD_LIMIT <= self.x <= WORLD_LIMIT && -WORLD_LIMIT <= self.y <= WORLD_LIMIT
    }

    pub fn new(x: i64, y: i64) -> (r: Point)
        ensures
            r.x == x,
            r.y == y,
    {
        Point { x, y }
    }
}

/// An axis-aligned box given by its centre and its half-extents.
#[derive(Clone, Copy, Debug, PartialEq, Eq, Structural)]
pub struct Aabb {
    pub center: Point,
    pub half_width: i64,
    pub half_height: i64,
}

impl Aabb {
    pub open spec fn wf(self) -> bool {
        &&& self.center.wf()
        &&& 0 <= self.half_width <= MAX_HALF_EXTENT
        &&& 0 <= self.half_height <= MAX_HALF_EXTENT
    }

    pub open spec fn left(self) -> int {
        self.center.x - self.half_width
    }

    pub open spec fn right(self) -> int {
        self.center.x + self.half_width
    }

    pub open spec fn bottom(self) -> int {
        self.center.y - self.half_height
    }

    pub open spec fn top(self) -> int {
        self.center.y + self.half_height
    }

    /// Two boxes overlap when their open intervals meet on both axes; boxes
    /// that only touch along an edge do not overlap.
    pub open spec fn overlaps_spec(self, other: Aabb) -> bool {
        &&& self.left() < other.right()
        &&& other.left() < self.right()
        &&& self.bottom() < other.top()
        &&& other.bottom() < self.top()
    }

    pub fn new(center: Point, half_width: i64, half_height: i64) -> (r: Aabb)
        ensures
            r.center == center,
            r.half_width == half_width,
            r.half_height == half_height,
    {
        Aabb { center, half_width, half_height }
    }

    pub fn overlaps(&self, other: &Aabb) -> (r: bool)
        requires
            self.wf(),
            other.wf(),
        ensures
            r == self.overlaps_spec(*other),
    {
        let a_left = self.center.x - self.half_width;
        let a_right = self.center.x + self.half_width;
        let a_bottom = self.center.y - self.half_height;
        let a_top = self.center.y + self.half_height;
        let b_left = other.center.x - other.half_width;
        let b_right = other.center.x + other.half_width;
        let b_bottom = other.center.y - other.half_height;
        let b_top = other.center.y + other.half_height;
        a_left < b_right && b_left < a_right && a_bottom < b_top && b_bottom < a_top
    }
}

} // verus!
