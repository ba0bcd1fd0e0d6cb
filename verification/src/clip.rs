//! A rectangular clip region with an optional inversion flag.

use vstd::prelude::*;

verus! {

#[derive(Debug, Default, Copy, Clone, PartialEq, Eq, Structural)]
pub struct Clip {
    pub x: i32,
    pub y: i32,
    pub w: i32,
    pub h: i32,
    pub invert: bool,
}

impl Clip {
    /// Whether a point lies inside the rectangle proper, ignoring inversion.
    pub open spec fn spec_inside(self, x: int, y: int) -> bool {
        self.x <= x < self.x + self.w && self.y <= y < self.y + self.h
    }

    pub fn new(x: i32, y: i32, w: i32, h: i32, invert: bool) -> (c: Clip)
        ensures
            c == (Clip { x, y, w, h, invert }),
    {
        Clip { x, y, w, h, invert }
    }

    /// Whether the clip admits the point: inside the rectangle for a normal
    /// clip, outside it for an inverted one.
    pub fn contains(&self, x: i32, y: i32) -> (r: bool)
        ensures
            r == (self.spec_inside(x as int, y as int) != self.invert),
    {
        let inside = x >= self.x
            && (x as i64) < self.x as i64 + self.w as i64
            && y >= self.y
            && (y as i64) < self.y as i64 + self.h as i64;
        (inside && !self.invert) || (!inside && self.invert)
    }
}

} // verus!
