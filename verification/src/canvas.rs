//! Canvas geometry: points, the plane-to-canvas conversion and the bounds test.

use vstd::prelude::*;

verus! {

/// Width of canvas in pixels.
pub const CANVAS_WIDTH: u32 = 640;

/// Height of canvas in pixels.
pub const CANVAS_HEIGHT: u32 = 640;

/// Lowest coordinate that `Point::new` hands out.
pub const COORD_MIN: i32 = -1073741824;

/// Highest coordinate that `Point::new` hands out.
pub const COORD_MAX: i32 = 1073741823;

/// `v` pulled into the range from `COORD_MIN` to `COORD_MAX`.
pub open spec fn clamp_coord(v: int) -> int {
    if v > COORD_MAX {
        COORD_MAX as int
    } else if v < COORD_MIN {
        COORD_MIN as int
    } else {
        v
    }
}

/// A point on the integer grid, in plane space or in canvas space.
#[derive(Clone, Copy, Debug, PartialEq, Eq, Structural)]
pub struct Point {
    pub x: i32,
    pub y: i32,
}

impl Point {
    /// The point `(x, y)` with each coordinate clamped to half the `i32`
    /// range, which is the range that SDL keeps its points in.
    pub open spec fn spec_new(x: int, y: int) -> Point {
        Point { x: clamp_coord(x) as i32, y: clamp_coord(y) as i32 }
    }

    /// Whether both coordinates lie in the clamped range.
    pub open spec fn is_clamped(self) -> bool {
        COORD_MIN <= self.x <= COORD_MAX && COORD_MIN <= self.y <= COORD_MAX
    }

    /// Creates a point from the given coordinates, clamping each of them.
    pub fn new(x: i32, y: i32) -> (p: Point)
        ensures
            p == Point::spec_new(x as int, y as int),
            p.is_clamped(),
    {
        Point { x: clamp_position(x as i64), y: clamp_position(y as i64) }
    }
}

fn clamp_position(val: i64) -> (r: i32)
    ensures
        r == clamp_coord(val as int),
{
    if val > COORD_MAX as i64 {
        COORD_MAX
    } else if val < COORD_MIN as i64 {
        COORD_MIN
    } else {
        val as i32
    }
}

/// Where the plane-space point `p` lies on the canvas: the origin moves from
/// the middle of the canvas to its top-left corner and the y axis flips.
pub open spec fn spec_plane_to_canvas(p: Point) -> Point {
    Point::spec_new(CANVAS_WIDTH as int / 2 + p.x, CANVAS_HEIGHT as int / 2 - p.y)
}

/// Converts a point from plane space to canvas space. Plane space is like
/// canvas space, except the origin is in the middle of the canvas and y
/// points up.
pub fn plane_to_canvas(p: Point) -> (c: Point)
    ensures
        c == spec_plane_to_canvas(p),
        c.is_clamped(),
{
    let half_width: i64 = (CANVAS_WIDTH / 2) as i64;
    let half_height: i64 = (CANVAS_HEIGHT / 2) as i64;
    Point {
        x: clamp_position(half_width + p.x as i64),
        y: clamp_position(half_height - p.y as i64),
    }
}

/// Whether the canvas has a pixel at `(x, y)`.
pub open spec fn spec_is_in_canvas(x: int, y: int) -> bool {
    0 <= x < CANVAS_WIDTH && 0 <= y < CANVAS_HEIGHT
}

/// Tells whether the canvas-space coordinates `(x, y)` name a pixel of the
/// canvas.
pub fn is_in_canvas(x: i32, y: i32) -> (r: bool)
    ensures
        r == spec_is_in_canvas(x as int, y as int),
{
    x >= 0 && x < CANVAS_WIDTH as i32 && y >= 0 && y < CANVAS_HEIGHT as i32
}

} // verus!
