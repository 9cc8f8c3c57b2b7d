//! Line drawing on the integer grid: which axis a line is stepped along and
//! from which end, and where each step lands.

use vstd::prelude::*;
use crate::canvas::Point;

verus! {

/// The axis along which a line is stepped one unit at a time.
#[derive(Clone, Copy, Debug, PartialEq, Eq, Structural)]
pub enum Axis {
    /// The line is oriented horizontally: x is stepped, y is interpolated.
    X,
    /// The line is oriented vertically: y is stepped, x is interpolated.
    Y,
}

/// A line laid out for drawing: it starts at `i0` on the major axis with
/// the minor coordinate `d0`, and ends at `i1` with `d1`. One pixel is
/// drawn for each integer from `i0` to `i1`, with the minor coordinate
/// interpolated between `d0` and `d1`.
#[derive(Clone, Copy, Debug, PartialEq, Eq, Structural)]
pub struct LineRun {
    pub major: Axis,
    pub i0: i32,
    pub d0: i32,
    pub i1: i32,
    pub d1: i32,
}

/// The absolute value of `v`.
pub open spec fn abs(v: int) -> int {
    if v < 0 {
        -v
    } else {
        v
    }
}

/// The run for the line between `p0` and `p1`: the axis of greater absolute
/// delta is the major axis (y when the deltas tie), and the run starts at
/// the end with the smaller major coordinate.
pub open spec fn spec_draw_line(p0: Point, p1: Point) -> LineRun {
    let dx = p1.x - p0.x;
    let dy = p1.y - p0.y;
    if abs(dx) > abs(dy) {
        if p0.x > p1.x {
            LineRun { major: Axis::X, i0: p1.x, d0: p1.y, i1: p0.x, d1: p0.y }
        } else {
            LineRun { major: Axis::X, i0: p0.x, d0: p0.y, i1: p1.x, d1: p1.y }
        }
    } else {
        if p0.y > p1.y {
            LineRun { major: Axis::Y, i0: p1.y, d0: p1.x, i1: p0.y, d1: p0.x }
        } else {
            LineRun { major: Axis::Y, i0: p0.y, d0: p0.x, i1: p1.y, d1: p1.x }
        }
    }
}

impl LineRun {
    /// How many pixels the run has: one for each integer from `i0` to `i1`.
    pub open spec fn spec_steps(self) -> int {
        if self.i0 <= self.i1 {
            self.i1 - self.i0 + 1
        } else {
            0
        }
    }

    /// The plane-space point at major coordinate `i` and minor coordinate
    /// `d`.
    pub open spec fn spec_point(self, i: int, d: int) -> Point {
        match self.major {
            Axis::X => Point::spec_new(i, d),
            Axis::Y => Point::spec_new(d, i),
        }
    }

    /// Puts a major and a minor coordinate back in x, y order.
    pub fn point(&self, i: i32, d: i32) -> (p: Point)
        ensures
            p == self.spec_point(i as int, d as int),
    {
        match self.major {
            Axis::X => Point::new(i, d),
            Axis::Y => Point::new(d, i),
        }
    }

    /// Whether the run starts at `p`.
    pub open spec fn starts_at(self, p: Point) -> bool {
        match self.major {
            Axis::X => self.i0 == p.x && self.d0 == p.y,
            Axis::Y => self.i0 == p.y && self.d0 == p.x,
        }
    }

    /// Whether the run ends at `p`.
    pub open spec fn ends_at(self, p: Point) -> bool {
        match self.major {
            Axis::X => self.i1 == p.x && self.d1 == p.y,
            Axis::Y => self.i1 == p.y && self.d1 == p.x,
        }
    }
}

/// Lays out the line between two plane-space points for drawing.
pub fn draw_line(p0: Point, p1: Point) -> (run: LineRun)
    ensures
        run == spec_draw_line(p0, p1),
{
    let dx: i64 = p1.x as i64 - p0.x as i64;
    let dy: i64 = p1.y as i64 - p0.y as i64;
    let abs_dx: i64 = if dx < 0 { -dx } else { dx };
    let abs_dy: i64 = if dy < 0 { -dy } else { dy };
    if abs_dx > abs_dy {
        // Line is oriented horizontally.
        if p0.x > p1.x {
            LineRun { major: Axis::X, i0: p1.x, d0: p1.y, i1: p0.x, d1: p0.y }
        } else {
            LineRun { major: Axis::X, i0: p0.x, d0: p0.y, i1: p1.x, d1: p1.y }
        }
    } else {
        // Line is oriented vertically.
        if p0.y > p1.y {
            LineRun { major: Axis::Y, i0: p1.y, d0: p1.x, i1: p0.y, d1: p0.x }
        } else {
            LineRun { major: Axis::Y, i0: p0.y, d0: p0.x, i1: p1.y, d1: p1.x }
        }
    }
}

/// Lays out the three edges of a triangle: from `p0` to `p1`, from `p1` to
/// `p2` and from `p2` back to `p0`.
pub fn draw_wireframe_triangle(p0: Point, p1: Point, p2: Point) -> (edges: [LineRun; 3])
    ensures
        edges[0] == spec_draw_line(p0, p1),
        edges[1] == spec_draw_line(p1, p2),
        edges[2] == spec_draw_line(p2, p0),
{
    [draw_line(p0, p1), draw_line(p1, p2), draw_line(p2, p0)]
}

/// A run never goes backwards, joins the two given points, and its minor
/// coordinate changes by no more than its major coordinate does, so that
/// consecutive pixels touch.
pub proof fn lemma_run_shape(p0: Point, p1: Point)
    ensures
        spec_draw_line(p0, p1).i0 <= spec_draw_line(p0, p1).i1,
        spec_draw_line(p0, p1).spec_steps() >= 1,
        abs(spec_draw_line(p0, p1).d1 - spec_draw_line(p0, p1).d0) <= spec_draw_line(p0, p1).i1
            - spec_draw_line(p0, p1).i0,
        (spec_draw_line(p0, p1).starts_at(p0) && spec_draw_line(p0, p1).ends_at(p1)) || (
        spec_draw_line(p0, p1).starts_at(p1) && spec_draw_line(p0, p1).ends_at(p0)),
{
}

/// A line is laid out the same way from either end.
pub proof fn lemma_run_symmetric(p0: Point, p1: Point)
    ensures
        spec_draw_line(p0, p1) == spec_draw_line(p1, p0),
{
}

} // verus!
