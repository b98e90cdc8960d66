//! Anchor points: which point of a rectangle a coordinate refers to.

use vstd::prelude::*;
use crate::arith::{fits_i64, scale, spec_scale};
use crate::geometry::{Rect, ScreenCoords, ScreenDimensions, Vec2};

verus! {

/// The anchor coordinate that denotes the far edge of a rectangle.
pub const PIN_UNIT: i32 = 1000;

/// A point of a rectangle given by two fractions of its extent, in
/// thousandths: `(0, 0)` is the top-left corner, `(1000, 1000)` the
/// bottom-right one. Fractions below zero or above one denote points outside.
///
/// When something is drawn at a destination point with a `PinPoint`, it is
/// that point of the thing drawn that lands on the destination.
#[derive(Clone, Copy, PartialEq, Eq, Debug, Structural)]
pub struct PinPoint {
    pub x: i32,
    pub y: i32,
}

/// How far along an extent the fraction `component / PIN_UNIT` lies, rounded down.
pub open spec fn spec_along(component: int, extent: int) -> int {
    spec_scale(extent, component, PIN_UNIT as int)
}

/// How far along an extent the fraction `component / PIN_UNIT` lies, rounded down.
pub fn along(component: i32, extent: i64) -> (d: i128)
    ensures
        d == spec_along(component as int, extent as int),
        -0x2000_0000_0000_0000_0000_0000_0000_0000 <= d <= 0x2000_0000_0000_0000_0000_0000_0000_0000,
{
    scale(extent as i128, component as i128, PIN_UNIT as i128)
}

impl PinPoint {
    pub fn new(x: i32, y: i32) -> (p: PinPoint)
        ensures
            p == (PinPoint { x, y }),
    {
        PinPoint { x, y }
    }

    pub fn top_left() -> (p: PinPoint)
        ensures
            p == (PinPoint { x: 0, y: 0 }),
    {
        PinPoint { x: 0, y: 0 }
    }

    pub fn top_center() -> (p: PinPoint)
        ensures
            p == (PinPoint { x: 500, y: 0 }),
    {
        PinPoint { x: 500, y: 0 }
    }

    pub fn top_right() -> (p: PinPoint)
        ensures
            p == (PinPoint { x: 1000, y: 0 }),
    {
        PinPoint { x: 1000, y: 0 }
    }

    pub fn center_left() -> (p: PinPoint)
        ensures
            p == (PinPoint { x: 0, y: 500 }),
    {
        PinPoint { x: 0, y: 500 }
    }

    pub fn center_center() -> (p: PinPoint)
        ensures
            p == (PinPoint { x: 500, y: 500 }),
    {
        PinPoint { x: 500, y: 500 }
    }

    pub fn center_right() -> (p: PinPoint)
        ensures
            p == (PinPoint { x: 1000, y: 500 }),
    {
        PinPoint { x: 1000, y: 500 }
    }

    pub fn bottom_left() -> (p: PinPoint)
        ensures
            p == (PinPoint { x: 0, y: 1000 }),
    {
        PinPoint { x: 0, y: 1000 }
    }

    pub fn bottom_center() -> (p: PinPoint)
        ensures
            p == (PinPoint { x: 500, y: 1000 }),
    {
        PinPoint { x: 500, y: 1000 }
    }

    pub fn bottom_right() -> (p: PinPoint)
        ensures
            p == (PinPoint { x: 1000, y: 1000 }),
    {
        PinPoint { x: 1000, y: 1000 }
    }

    /// Horizontal distance of this point from the left edge of something of
    /// the given extent.
    pub open spec fn offset_x(self, dims: ScreenDimensions) -> int {
        spec_along(self.x as int, dims.x as int)
    }

    /// Vertical distance of this point from the top edge of something of the
    /// given extent.
    pub open spec fn offset_y(self, dims: ScreenDimensions) -> int {
        spec_along(self.y as int, dims.y as int)
    }

    /// When something of the given dimensions is drawn so that this point of
    /// it lands on `dst`, its top-left corner ends up at the point returned.
    pub fn actual_top_left_coords(self, dst: ScreenCoords, dims: ScreenDimensions) -> (r:
        ScreenCoords)
        requires
            fits_i64(dst.x - self.offset_x(dims)),
            fits_i64(dst.y - self.offset_y(dims)),
        ensures
            r.x == dst.x - self.offset_x(dims),
            r.y == dst.y - self.offset_y(dims),
    {
        let x = dst.x as i128 - along(self.x, dims.x);
        let y = dst.y as i128 - along(self.y, dims.y);
        Vec2 { x: x as i64, y: y as i64 }
    }

    /// The canvas point at which this point of the rectangle lies.
    pub fn where_in_rect(self, dst_rect: Rect) -> (r: ScreenCoords)
        requires
            fits_i64(dst_rect.x + spec_along(self.x as int, dst_rect.w as int)),
            fits_i64(dst_rect.y + spec_along(self.y as int, dst_rect.h as int)),
        ensures
            r.x == dst_rect.x + spec_along(self.x as int, dst_rect.w as int),
            r.y == dst_rect.y + spec_along(self.y as int, dst_rect.h as int),
    {
        let x = dst_rect.x as i128 + along(self.x, dst_rect.w);
        let y = dst_rect.y as i128 + along(self.y, dst_rect.h);
        Vec2 { x: x as i64, y: y as i64 }
    }
}

} // verus!
