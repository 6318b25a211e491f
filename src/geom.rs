//! Fixed-point vectors and the viewport rectangle.
use vstd::prelude::*;

verus! {

/// Sub-units in one pixel: positions, velocities and forces are fixed-point
/// numbers with this denominator, and a unit direction has this length.
pub const UNIT: i64 = 1024;

/// Largest magnitude of a viewport edge coordinate (2^40 sub-units).
pub const COORD_MAX: i64 = 0x100_0000_0000;

/// A 2-D vector in sub-pixel units.
#[derive(Clone, Copy, Debug, PartialEq, Eq, Structural)]
pub struct Vec2 {
    pub x: i64,
    pub y: i64,
}

impl Vec2 {
    /// The squared Euclidean length.
    pub open spec fn norm_sq(self) -> int {
        self.x * self.x + self.y * self.y
    }

    /// Componentwise sum (exact when both components fit).
    pub open spec fn plus(self, o: Vec2) -> Vec2 {
        Vec2 { x: (self.x + o.x) as i64, y: (self.y + o.y) as i64 }
    }

    /// The vector multiplied by an integer factor.
    pub open spec fn times(self, k: int) -> Vec2 {
        Vec2 { x: (self.x * k) as i64, y: (self.y * k) as i64 }
    }

    pub open spec fn zero_spec() -> Vec2 {
        Vec2 { x: 0, y: 0 }
    }

    pub fn new(x: i64, y: i64) -> (r: Vec2)
        ensures
            r.x == x,
            r.y == y,
    {
        Vec2 { x, y }
    }

    pub fn zero() -> (r: Vec2)
        ensures
            r == Vec2::zero_spec(),
    {
        Vec2 { x: 0, y: 0 }
    }
}

/// An axis-aligned rectangle; `bottom` is the lower y edge and `top` the upper.
#[derive(Clone, Copy, Debug, PartialEq, Eq, Structural)]
pub struct Rect {
    pub left: i64,
    pub right: i64,
    pub bottom: i64,
    pub top: i64,
}

impl Rect {
    /// Edges ordered and within `COORD_MAX` of the origin.
    pub open spec fn wf(self) -> bool {
        -COORD_MAX <= self.left <= self.right <= COORD_MAX && -COORD_MAX <= self.bottom
            <= self.top <= COORD_MAX
    }

    /// Whether a point lies inside the rectangle, edges included.
    pub open spec fn contains(self, p: Vec2) -> bool {
        self.left <= p.x <= self.right && self.bottom <= p.y <= self.top
    }

    /// The rectangle of width `w` and height `h` centred on the origin.
    pub open spec fn centered(w: int, h: int) -> Rect {
        Rect {
            left: (-(w / 2)) as i64,
            right: (w - w / 2) as i64,
            bottom: (-(h / 2)) as i64,
            top: (h - h / 2) as i64,
        }
    }

    /// The rectangle of width `w` and height `h` centred on the origin; on an
    /// odd size the extra sub-unit goes to the right and top edges.
    pub fn from_w_h(w: i64, h: i64) -> (r: Rect)
        requires
            0 <= w <= 2 * COORD_MAX,
            0 <= h <= 2 * COORD_MAX,
        ensures
            r == Rect::centered(w as int, h as int),
            r.left == -(w / 2),
            r.right == w - w / 2,
            r.bottom == -(h / 2),
            r.top == h - h / 2,
            r.right - r.left == w,
            r.top - r.bottom == h,
            r.wf(),
    {
        Rect { left: -(w / 2), right: w - w / 2, bottom: -(h / 2), top: h - h / 2 }
    }

    pub fn w(&self) -> (r: i64)
        requires
            self.wf(),
        ensures
            r == self.right - self.left,
    {
        self.right - self.left
    }

    pub fn h(&self) -> (r: i64)
        requires
            self.wf(),
        ensures
            r == self.top - self.bottom,
    {
        self.top - self.bottom
    }

    pub fn contains_point(&self, p: Vec2) -> (r: bool)
        ensures
            r == self.contains(p),
    {
        self.left <= p.x && p.x <= self.right && self.bottom <= p.y && p.y <= self.top
    }
}

} // verus!
