//! Rectangles and circle candidates, and the coordinate translation
//! between nested regions of a frame.
//!
//! A locator that runs over a sub-region reports its findings in the
//! sub-region's own coordinate space; before anything is drawn on the
//! full frame, every origin on the path from the frame down to the
//! finding must be added back in.

use vstd::prelude::*;

verus! {

/// Frame dimensions never exceed this bound, so that a coordinate
/// translated across two nested regions still fits in `i32`.
pub const DIM_LIMIT: i32 = 0x2000_0000;

/// An axis-aligned rectangle: origin and extent, in the coordinate
/// space of whatever frame or sub-region it was detected in.
#[derive(Clone, Copy, Debug, PartialEq, Eq, Structural)]
pub struct Rect {
    pub x: i32,
    pub y: i32,
    pub width: i32,
    pub height: i32,
}

/// A circle candidate reported by the iris locator: center and radius,
/// in whole pixels, in the coordinate space of the eye sub-region.
#[derive(Clone, Copy, Debug, PartialEq, Eq, Structural)]
pub struct Circle {
    pub x: i32,
    pub y: i32,
    pub radius: i32,
}

/// The rectangle lies entirely inside a region of the given extent.
pub open spec fn rect_in_bounds(r: Rect, width: int, height: int) -> bool {
    &&& 0 <= r.x
    &&& 0 <= r.y
    &&& 0 <= r.width
    &&& 0 <= r.height
    &&& r.x + r.width <= width
    &&& r.y + r.height <= height
}

/// The circle's center lies inside a region of the given extent.
pub open spec fn center_in_bounds(c: Circle, width: int, height: int) -> bool {
    &&& 0 <= c.x <= width
    &&& 0 <= c.y <= height
}

impl Rect {
    /// Builds a rectangle from its four components.
    pub fn new(x: i32, y: i32, width: i32, height: i32) -> (r: Rect)
        ensures
            r == (Rect { x, y, width, height }),
    {
        Rect { x, y, width, height }
    }

    /// Decides whether the rectangle lies entirely inside a region of
    /// extent `width` by `height`.
    pub fn in_bounds(&self, width: i32, height: i32) -> (b: bool)
        ensures
            b == rect_in_bounds(*self, width as int, height as int),
    {
        0 <= self.x && 0 <= self.y && 0 <= self.width && 0 <= self.height
            && self.x as i64 + self.width as i64 <= width as i64
            && self.y as i64 + self.height as i64 <= height as i64
    }
}

impl Circle {
    /// Builds a circle candidate from center and radius.
    pub fn new(x: i32, y: i32, radius: i32) -> (c: Circle)
        ensures
            c == (Circle { x, y, radius }),
    {
        Circle { x, y, radius }
    }

    /// Decides whether the center lies inside a region of extent
    /// `width` by `height`.
    pub fn center_in(&self, width: i32, height: i32) -> (b: bool)
        ensures
            b == center_in_bounds(*self, width as int, height as int),
    {
        0 <= self.x && self.x <= width && 0 <= self.y && self.y <= height
    }
}

/// Moves a rectangle from a sub-region's coordinate space into the
/// space the sub-region's origin is given in.
pub fn translate_rect(origin_x: i32, origin_y: i32, r: &Rect) -> (t: Rect)
    requires
        i32::MIN <= origin_x + r.x <= i32::MAX,
        i32::MIN <= origin_y + r.y <= i32::MAX,
    ensures
        t.x == origin_x + r.x,
        t.y == origin_y + r.y,
        t.width == r.width,
        t.height == r.height,
{
    Rect { x: origin_x + r.x, y: origin_y + r.y, width: r.width, height: r.height }
}

/// Moves a circle candidate from a sub-region's coordinate space into
/// the space the sub-region's origin is given in.
pub fn translate_circle(origin_x: i32, origin_y: i32, c: &Circle) -> (t: Circle)
    requires
        i32::MIN <= origin_x + c.x <= i32::MAX,
        i32::MIN <= origin_y + c.y <= i32::MAX,
    ensures
        t.x == origin_x + c.x,
        t.y == origin_y + c.y,
        t.radius == c.radius,
{
    Circle { x: origin_x + c.x, y: origin_y + c.y, radius: c.radius }
}

} // verus!
