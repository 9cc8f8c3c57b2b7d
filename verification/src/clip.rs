//! Clipping one triangle against one plane, as far as it can be decided from
//! which corners lie inside: which corners stay, which edges are cut, and
//! how the pieces are put together.

use vstd::prelude::*;

verus! {

/// One corner of a clipped triangle, named by the corners of the triangle
/// that was clipped.
#[derive(Clone, Copy, Debug, PartialEq, Eq, Structural)]
pub enum ClipVertex {
    /// Corner number `0`, `1` or `2` of the input, unchanged.
    Keep(usize),
    /// The point where the edge between two corners of the input crosses the
    /// plane. `from` is the corner inside the plane, `to` the one outside.
    Cut { from: usize, to: usize },
}

impl ClipVertex {
    /// Whether this corner makes sense for a triangle with the given inside
    /// flags: a kept corner lies inside, and a cut edge runs from a corner
    /// inside to a corner outside, so that it does cross the plane.
    pub open spec fn crosses(self, inside: [bool; 3]) -> bool {
        match self {
            ClipVertex::Keep(i) => i < 3 && inside[i as int],
            ClipVertex::Cut { from, to } => from < 3 && to < 3 && inside[from as int]
                && !inside[to as int],
        }
    }
}

/// The corners whose flag equals `want`, in ascending order.
pub open spec fn corners_where(inside: [bool; 3], want: bool) -> Seq<usize> {
    (if inside[0] == want {
        seq![0usize]
    } else {
        seq![]
    }) + (if inside[1] == want {
        seq![1usize]
    } else {
        seq![]
    }) + (if inside[2] == want {
        seq![2usize]
    } else {
        seq![]
    })
}

/// The triangles that remain of a triangle whose corner `i` lies strictly
/// inside the plane exactly when `inside[i]` holds.
///
/// - Three corners inside: the triangle itself.
/// - Two inside, `a` and `b`, and `c` outside: `[a, b, b']` and
///   `[a', b, b']`, where `a'` cuts the edge from `a` to `c` and `b'` the
///   edge from `b` to `c`.
/// - One inside, `a`, and `b` and `c` outside: `[a, b', c']`, where `b'`
///   cuts the edge from `a` to `b` and `c'` the edge from `a` to `c`.
/// - None inside: nothing.
pub open spec fn spec_clip_triangle(inside: [bool; 3]) -> Seq<[ClipVertex; 3]> {
    let positive = corners_where(inside, true);
    let negative = corners_where(inside, false);
    if positive.len() == 3 {
        seq![[ClipVertex::Keep(0), ClipVertex::Keep(1), ClipVertex::Keep(2)]]
    } else if positive.len() == 2 {
        let a = positive[0];
        let b = positive[1];
        let c = negative[0];
        seq![
            [ClipVertex::Keep(a), ClipVertex::Keep(b), ClipVertex::Cut { from: b, to: c }],
            [
                ClipVertex::Cut { from: a, to: c },
                ClipVertex::Keep(b),
                ClipVertex::Cut { from: b, to: c },
            ],
        ]
    } else if positive.len() == 1 {
        let a = positive[0];
        let b = negative[0];
        let c = negative[1];
        seq![
            [
                ClipVertex::Keep(a),
                ClipVertex::Cut { from: a, to: b },
                ClipVertex::Cut { from: a, to: c },
            ],
        ]
    } else {
        seq![]
    }
}

/// Clips a triangle against a plane, given for each corner whether its
/// signed distance to the plane is positive. The result names each corner of
/// each remaining triangle; the caller computes the cut points.
pub fn clip_triangle(inside: [bool; 3]) -> (clipped_triangles: Vec<[ClipVertex; 3]>)
    ensures
        clipped_triangles@ == spec_clip_triangle(inside),
{
    let mut clipped_triangles: Vec<[ClipVertex; 3]> = Vec::with_capacity(3);

    let mut positive: Vec<usize> = Vec::with_capacity(3);
    let mut negative: Vec<usize> = Vec::with_capacity(3);

    if inside[0] {
        positive.push(0);
    } else {
        negative.push(0);
    }
    if inside[1] {
        positive.push(1);
    } else {
        negative.push(1);
    }
    if inside[2] {
        positive.push(2);
    } else {
        negative.push(2);
    }
    assert(positive@ == corners_where(inside, true));
    assert(negative@ == corners_where(inside, false));

    match positive.len() {
        3 => {
            clipped_triangles.push([ClipVertex::Keep(0), ClipVertex::Keep(1), ClipVertex::Keep(2)]);
        },
        2 => {
            let a = positive[0];
            let b = positive[1];
            let c = negative[0];

            clipped_triangles.push(
                [ClipVertex::Keep(a), ClipVertex::Keep(b), ClipVertex::Cut { from: b, to: c }],
            );
            clipped_triangles.push(
                [
                    ClipVertex::Cut { from: a, to: c },
                    ClipVertex::Keep(b),
                    ClipVertex::Cut { from: b, to: c },
                ],
            );
        },
        1 => {
            let a = positive[0];
            let b = negative[0];
            let c = negative[1];

            clipped_triangles.push(
                [
                    ClipVertex::Keep(a),
                    ClipVertex::Cut { from: a, to: b },
                    ClipVertex::Cut { from: a, to: c },
                ],
            );
        },
        _ => (),
    }

    clipped_triangles
}

/// A triangle that lies entirely inside the plane comes back alone and
/// unchanged.
pub proof fn lemma_inside_unchanged(inside: [bool; 3])
    requires
        inside[0] && inside[1] && inside[2],
    ensures
        spec_clip_triangle(inside) == seq![
            [ClipVertex::Keep(0), ClipVertex::Keep(1), ClipVertex::Keep(2)],
        ],
{
}

/// A triangle that lies entirely outside the plane leaves nothing.
pub proof fn lemma_outside_empty(inside: [bool; 3])
    requires
        !inside[0] && !inside[1] && !inside[2],
    ensures
        spec_clip_triangle(inside) == Seq::<[ClipVertex; 3]>::empty(),
{
}

/// Clipping leaves at most two triangles: two when exactly two corners are
/// inside, one when one or three are, none otherwise.
pub proof fn lemma_clip_count(inside: [bool; 3])
    ensures
        spec_clip_triangle(inside).len() == (if corners_where(inside, true).len() == 2 {
            2nat
        } else if corners_where(inside, true).len() == 0 {
            0nat
        } else {
            1nat
        }),
        corners_where(inside, true).len() + corners_where(inside, false).len() == 3,
{
}

/// Every corner of every remaining triangle is either a corner of the input
/// that lies inside, or the cut of an edge that runs from a corner inside to
/// a corner outside.
pub proof fn lemma_clip_corners_cross(inside: [bool; 3], t: int, k: int)
    requires
        0 <= t < spec_clip_triangle(inside).len(),
        0 <= k < 3,
    ensures
        spec_clip_triangle(inside)[t][k].crosses(inside),
{
}

} // verus!
