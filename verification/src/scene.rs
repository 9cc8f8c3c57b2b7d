//! Scene vocabulary: render switches, draw modes and model triangles.

use vstd::prelude::*;

verus! {

/// A two-state toggle, used for back-face culling.
#[derive(Clone, Copy, Debug, PartialEq, Eq, Structural)]
pub enum Switch {
    Off,
    On,
}

/// How a face lies relative to the camera: the sign of its normal dotted with
/// the view vector. `Toward` is a negative product, `EdgeOn` is zero and
/// `Away` is positive.
#[derive(Clone, Copy, Debug, PartialEq, Eq, Structural)]
pub enum Facing {
    Toward,
    EdgeOn,
    Away,
}

/// What the renderer puts on the canvas for each triangle.
#[derive(Clone, Copy, Debug, PartialEq, Eq, Structural)]
pub enum Draw {
    /// Grayscale proportional to reciprocal depth, depth-tested.
    Depths,
    /// Interpolated vertex colors, depth-tested.
    Pixels,
    /// The three edges only, with no depth test.
    Wireframe,
}

impl Switch {
    /// The other state.
    pub open spec fn spec_toggle(self) -> Switch {
        match self {
            Switch::On => Switch::Off,
            Switch::Off => Switch::On,
        }
    }

    /// Flips the switch.
    pub fn toggle(self) -> (r: Self)
        ensures
            r == self.spec_toggle(),
    {
        match self {
            Self::On => Self::Off,
            Self::Off => Self::On,
        }
    }

    /// Whether a face is skipped: the switch is on and the face does not
    /// point toward the camera.
    pub open spec fn spec_culls(self, facing: Facing) -> bool {
        self == Switch::On && facing != Facing::Toward
    }

    /// Decides whether a face with the given facing is skipped before
    /// clipping. With the switch off nothing is skipped; with it on, every
    /// face whose normal has a non-negative product with the view vector is.
    pub fn culls(self, facing: Facing) -> (r: bool)
        ensures
            r == self.spec_culls(facing),
    {
        match self {
            Switch::Off => false,
            Switch::On => match facing {
                Facing::Toward => false,
                Facing::EdgeOn => true,
                Facing::Away => true,
            },
        }
    }
}

/// Toggling twice gives the switch back.
pub proof fn lemma_toggle_involution(s: Switch)
    ensures
        s.spec_toggle().spec_toggle() == s,
        s.spec_toggle() != s,
{
}

impl Draw {
    /// Whether triangles are filled, and so depth-tested, in this mode.
    pub open spec fn spec_fills(self) -> bool {
        self != Draw::Wireframe
    }

    /// Tells whether this mode fills triangles. Wireframe does not.
    pub fn fills(self) -> (r: bool)
        ensures
            r == self.spec_fills(),
    {
        match self {
            Draw::Wireframe => false,
            Draw::Depths => true,
            Draw::Pixels => true,
        }
    }
}

/// One triangle of a model: three indices into the model's vertices and
/// three into its colors.
#[derive(Clone, Copy, Debug, PartialEq, Eq)]
pub struct ModelTriangle {
    pub vertices: [usize; 3],
    pub indices_color: [usize; 3],
}

impl ModelTriangle {
    /// A triangle with the given vertex indices and color indices.
    pub fn new(vertices: [usize; 3], indices_color: [usize; 3]) -> (r: Self)
        ensures
            r.vertices == vertices,
            r.indices_color == indices_color,
    {
        ModelTriangle { vertices, indices_color }
    }

    /// Whether every index of the triangle is valid in a model with
    /// `n_vertices` vertices and `n_colors` colors.
    pub open spec fn fits(self, n_vertices: int, n_colors: int) -> bool {
        &&& self.vertices[0] < n_vertices
        &&& self.vertices[1] < n_vertices
        &&& self.vertices[2] < n_vertices
        &&& self.indices_color[0] < n_colors
        &&& self.indices_color[1] < n_colors
        &&& self.indices_color[2] < n_colors
    }

    /// Checks the triangle's indices against the sizes of a model's vertex
    /// and color lists.
    pub fn is_valid(&self, n_vertices: usize, n_colors: usize) -> (r: bool)
        ensures
            r == self.fits(n_vertices as int, n_colors as int),
    {
        let ok = self.vertices[0] < n_vertices && self.vertices[1] < n_vertices
            && self.vertices[2] < n_vertices && self.indices_color[0] < n_colors
            && self.indices_color[1] < n_colors && self.indices_color[2] < n_colors;
        ok
    }
}

/// Whether every triangle of `triangles` fits a model with `n_vertices`
/// vertices and `n_colors` colors.
pub open spec fn all_fit(triangles: Seq<ModelTriangle>, n_vertices: int, n_colors: int) -> bool {
    forall|i: int| 0 <= i < triangles.len() ==> (#[trigger] triangles[i]).fits(n_vertices, n_colors)
}

/// Finds the first triangle with an index out of range, if there is one.
pub fn first_invalid(
    triangles: &Vec<ModelTriangle>,
    n_vertices: usize,
    n_colors: usize,
) -> (r: Option<usize>)
    ensures
        r is None <==> all_fit(triangles@, n_vertices as int, n_colors as int),
        r matches Some(i) ==> i < triangles.len() && !triangles[i as int].fits(
            n_vertices as int,
            n_colors as int,
        ) && all_fit(triangles@.take(i as int), n_vertices as int, n_colors as int),
{
    let mut i: usize = 0;
    while i < triangles.len()
        invariant
            i <= triangles.len(),
            all_fit(triangles@.take(i as int), n_vertices as int, n_colors as int),
        decreases triangles.len() - i,
    {
        if !triangles[i].is_valid(n_vertices, n_colors) {
            return Some(i);
        }
        proof {
            assert forall|j: int| 0 <= j < i + 1 implies (#[trigger] triangles@.take(i + 1)[j]).fits(
                n_vertices as int,
                n_colors as int,
            ) by {
                if j < i {
                    assert(triangles@.take(i as int)[j] == triangles@[j]);
                }
            }
        }
        i += 1;
    }
    proof {
        assert(triangles@.take(i as int) == triangles@);
    }
    None
}

} // verus!
