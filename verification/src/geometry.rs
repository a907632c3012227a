//! Geometry primitives: integer vectors and axis-aligned rectangles.

use vstd::prelude::*;

verus! {

/// An integer 2-d vector, used both for positions and for velocities.
#[derive(Clone, Copy, Debug, PartialEq, Eq, Structural)]
pub struct Point {
    pub x: i16,
    pub y: i16,
}

/// An axis-aligned box: a top-left corner plus a width and a height.
#[derive(Clone, Copy, Debug, PartialEq, Eq, Structural)]
pub struct Rect {
    pub position: Point,
    pub width: i16,
    pub height: i16,
}

impl Rect {
    /// The right edge, as an unbounded integer (so the spec never overflows).
    pub open spec fn spec_right(&self) -> int {
        self.position.x + self.width
    }

    /// The bottom edge, as an unbounded integer.
    pub open spec fn spec_bottom(&self) -> int {
        self.position.y + self.height
    }

    /// Whether both edge sums of this box stay inside `i16`.
    pub open spec fn edges_fit(&self) -> bool {
        i16::MIN <= self.spec_right() <= i16::MAX && i16::MIN <= self.spec_bottom() <= i16::MAX
    }

    /// Open-interval overlap on both axes.
    pub open spec fn spec_intersects(&self, other: &Rect) -> bool {
        &&& self.position.x < other.spec_right()
        &&& self.spec_right() > other.position.x
        &&& self.position.y < other.spec_bottom()
        &&& self.spec_bottom() > other.position.y
    }

    pub fn new(position: Point, width: i16, height: i16) -> (r: Rect)
        ensures
            r == (Rect { position, width, height }),
    {
        Rect { position, width, height }
    }

    pub fn new_from_x_y(x: i16, y: i16, width: i16, height: i16) -> (r: Rect)
        ensures
            r == (Rect { position: Point { x, y }, width, height }),
    {
        Rect { position: Point { x, y }, width, height }
    }

    pub fn x(&self) -> (r: i16)
        ensures
            r == self.position.x,
    {
        self.position.x
    }

    pub fn y(&self) -> (r: i16)
        ensures
            r == self.position.y,
    {
        self.position.y
    }

    pub fn set_x(&mut self, x: i16)
        ensures
            *final(self) == (Rect { position: Point { x, y: old(self).position.y }, ..*old(self) }),
    {
        self.position.x = x;
    }

    pub fn set_y(&mut self, y: i16)
        ensures
            *final(self) == (Rect { position: Point { x: old(self).position.x, y }, ..*old(self) }),
    {
        self.position.y = y;
    }

    pub fn right(&self) -> (r: i16)
        requires
            self.edges_fit(),
        ensures
            r == self.spec_right(),
    {
        self.position.x + self.width
    }

    pub fn bottom(&self) -> (r: i16)
        requires
            self.edges_fit(),
        ensures
            r == self.spec_bottom(),
    {
        self.position.y + self.height
    }

    pub fn intersects(&self, other: &Rect) -> (r: bool)
        requires
            self.edges_fit(),
            other.edges_fit(),
        ensures
            r == self.spec_intersects(other),
    {
        self.x() < other.right() && self.right() > other.x() && self.y() < other.bottom()
            && self.bottom() > other.y()
    }
}

impl Default for Rect {
    fn default() -> (r: Rect)
        ensures
            r == (Rect { position: Point { x: 0, y: 0 }, width: 0, height: 0 }),
    {
        Rect { position: Point { x: 0, y: 0 }, width: 0, height: 0 }
    }
}

} // verus!
