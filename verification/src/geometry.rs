//! Points, extents and axis-aligned rectangles in whole pixels.

use vstd::prelude::*;
use crate::arith::fits_i64;

verus! {

/// A point of the canvas, or the extent of something drawn on it.
#[derive(Clone, Copy, PartialEq, Eq, Debug, Structural)]
pub struct Vec2 {
    pub x: i64,
    pub y: i64,
}

/// A point of the canvas.
pub type ScreenCoords = Vec2;

/// The extent of something drawn on the canvas.
pub type ScreenDimensions = Vec2;

impl Vec2 {
    pub fn new(x: i64, y: i64) -> (v: Vec2)
        ensures
            v.x == x,
            v.y == y,
    {
        Vec2 { x, y }
    }
}

/// A rectangle over the mathematical integers: what a `Rect` stands for.
pub struct Frame {
    pub x: int,
    pub y: int,
    pub w: int,
    pub h: int,
}

impl Frame {
    /// Whether the point lies in the rectangle, its four edges included.
    pub open spec fn contains(self, px: int, py: int) -> bool {
        &&& self.x <= px <= self.x + self.w
        &&& self.y <= py <= self.y + self.h
    }

    /// Whether a `Rect` can hold this rectangle.
    pub open spec fn fits(self) -> bool {
        fits_i64(self.x) && fits_i64(self.y) && fits_i64(self.w) && fits_i64(self.h)
    }
}

/// An axis-aligned rectangle: top-left corner and extent.
#[derive(Clone, Copy, PartialEq, Eq, Debug, Structural)]
pub struct Rect {
    pub x: i64,
    pub y: i64,
    pub w: i64,
    pub h: i64,
}

impl View for Rect {
    type V = Frame;

    open spec fn view(&self) -> Frame {
        Frame { x: self.x as int, y: self.y as int, w: self.w as int, h: self.h as int }
    }
}

impl Rect {
    pub fn new(x: i64, y: i64, w: i64, h: i64) -> (r: Rect)
        ensures
            r == (Rect { x, y, w, h }),
    {
        Rect { x, y, w, h }
    }

    /// The top-left corner.
    pub fn point(&self) -> (p: ScreenCoords)
        ensures
            p.x == self.x,
            p.y == self.y,
    {
        Vec2 { x: self.x, y: self.y }
    }

    /// Whether the point lies in the rectangle, its four edges included.
    pub fn contains(&self, point: ScreenCoords) -> (inside: bool)
        ensures
            inside == self@.contains(point.x as int, point.y as int),
    {
        let px = point.x as i128;
        let py = point.y as i128;
        let left = self.x as i128;
        let top = self.y as i128;
        px >= left && px <= left + self.w as i128 && py <= top + self.h as i128 && py >= top
    }

    /// The middle of the rectangle, rounded down to whole pixels.
    pub fn center(&self) -> (c: ScreenCoords)
        requires
            fits_i64(self.x + self.w / 2),
            fits_i64(self.y + self.h / 2),
        ensures
            c.x == self.x + self.w / 2,
            c.y == self.y + self.h / 2,
    {
        let cx = self.x as i128 + crate::arith::div_floor(self.w as i128, 2);
        let cy = self.y as i128 + crate::arith::div_floor(self.h as i128, 2);
        Vec2 { x: cx as i64, y: cy as i64 }
    }
}

} // verus!
