//! The depth-tested part of rasterization: the depth buffer, the test that
//! each fragment takes, and the filling of spans and triangles.
//!
//! A depth is held as a rank: an integer that grows as the surface comes
//! closer, in the order of the reciprocal camera-space depth. Rank `0` is
//! what a cleared buffer holds and stands for "infinitely far".

use vstd::prelude::*;
use crate::canvas::{
    is_in_canvas, plane_to_canvas, spec_is_in_canvas, spec_plane_to_canvas, Point, CANVAS_HEIGHT,
    CANVAS_WIDTH, COORD_MAX,
};
use crate::scene::Draw;

verus! {

/// The number of pixels of the canvas.
pub open spec fn cell_count() -> int {
    CANVAS_WIDTH as int * CANVAS_HEIGHT as int
}

/// The place of the canvas pixel `c` in the depth buffer: rows from top to
/// bottom, each from left to right.
pub open spec fn cell_index(c: Point) -> int {
    c.y as int * CANVAS_WIDTH as int + c.x as int
}

/// Whether the plane-space point `p` falls on a pixel of the canvas.
pub open spec fn on_canvas(p: Point) -> bool {
    spec_is_in_canvas(spec_plane_to_canvas(p).x as int, spec_plane_to_canvas(p).y as int)
}

/// Whether a fragment at the plane-space point `p` with depth rank `depth`
/// passes the depth test against `cells`: it falls on the canvas and is
/// strictly closer than what its pixel holds.
pub open spec fn hits(cells: Seq<i32>, p: Point, depth: i32) -> bool {
    on_canvas(p) && depth > cells[cell_index(spec_plane_to_canvas(p))]
}

/// The depth buffer after a fragment at `p` with rank `depth` has taken the
/// depth test: its pixel holds `depth` if it passed, and nothing changed if
/// it did not.
pub open spec fn plotted(cells: Seq<i32>, p: Point, depth: i32) -> Seq<i32> {
    if hits(cells, p, depth) {
        cells.update(cell_index(spec_plane_to_canvas(p)), depth)
    } else {
        cells
    }
}

/// Where a fragment is drawn: its canvas pixel if it passes the depth test.
pub open spec fn plot_at(cells: Seq<i32>, p: Point, depth: i32) -> Option<Point> {
    if hits(cells, p, depth) {
        Some(spec_plane_to_canvas(p))
    } else {
        None
    }
}

/// One depth rank per canvas pixel.
pub struct DepthBuffer {
    cells: Vec<i32>,
}

impl View for DepthBuffer {
    type V = Seq<i32>;

    closed spec fn view(&self) -> Seq<i32> {
        self.cells@
    }
}

impl DepthBuffer {
    #[verifier::type_invariant]
    spec fn well_formed(self) -> bool {
        self.cells@.len() == cell_count()
    }

    /// A cleared depth buffer: every pixel is infinitely far.
    pub fn new() -> (buffer: Self)
        ensures
            buffer@ == Seq::new(cell_count() as nat, |i: int| 0i32),
    {
        let n: usize = (CANVAS_WIDTH as usize) * (CANVAS_HEIGHT as usize);
        let cells: Vec<i32> = vec![0i32; n];
        assert(cells@ =~= Seq::new(cell_count() as nat, |i: int| 0i32));
        DepthBuffer { cells }
    }

    /// The depth rank stored for the canvas pixel `(x, y)`, or `None` where
    /// the canvas has no such pixel.
    pub fn depth_at(&self, x: i32, y: i32) -> (r: Option<i32>)
        ensures
            self@.len() == cell_count(),
            r == (if spec_is_in_canvas(x as int, y as int) {
                Some(self@[cell_index(Point { x, y })])
            } else {
                None
            }),
    {
        proof {
            use_type_invariant(&*self);
        }
        if is_in_canvas(x, y) {
            let index: usize = (y as usize) * (CANVAS_WIDTH as usize) + (x as usize);
            Some(self.cells[index])
        } else {
            None
        }
    }

    /// Puts one fragment through the depth test. `p` is its place in plane
    /// space and `depth` its depth rank. If the fragment falls on the canvas
    /// and is strictly closer than what its pixel holds, the pixel takes the
    /// new depth and the canvas point to draw is returned. Otherwise
    /// nothing changes and nothing is to be drawn.
    pub fn plot(&mut self, p: Point, depth: i32) -> (r: Option<Point>)
        ensures
            old(self)@.len() == cell_count(),
            final(self)@ == plotted(old(self)@, p, depth),
            r == plot_at(old(self)@, p, depth),
    {
        proof {
            use_type_invariant(&*self);
        }
        let c = plane_to_canvas(p);
        if is_in_canvas(c.x, c.y) {
            let index: usize = (c.y as usize) * (CANVAS_WIDTH as usize) + (c.x as usize);
            if depth > self.cells[index] {
                self.cells[index] = depth;
                return Some(c);
            }
        }
        None
    }
}

/// Whether `order` visits the three `keys` in ascending order, each once,
/// and keeps equal keys in the order in which they were given.
pub open spec fn is_stable_order(keys: [i32; 3], order: [usize; 3]) -> bool {
    &&& order[0] < 3 && order[1] < 3 && order[2] < 3
    &&& order[0] != order[1] && order[1] != order[2] && order[0] != order[2]
    &&& keys[order[0] as int] <= keys[order[1] as int] <= keys[order[2] as int]
    &&& keys[order[0] as int] == keys[order[1] as int] ==> order[0] < order[1]
    &&& keys[order[1] as int] == keys[order[2] as int] ==> order[1] < order[2]
}

/// Sorts the three corners of a triangle by ascending y, given for each
/// corner a key that is ordered as its y coordinate is. The result lists
/// the corners from the lowest key to the highest; corners with equal keys
/// stay in the order in which they were given.
pub fn sort_by_y(keys: [i32; 3]) -> (order: [usize; 3])
    ensures
        is_stable_order(keys, order),
{
    let mut first: usize = 0;
    let mut second: usize = 1;
    if keys[1] < keys[0] {
        first = 1;
        second = 0;
    }
    if keys[2] < keys[first] {
        [2, first, second]
    } else if keys[2] < keys[second] {
        [first, 2, second]
    } else {
        [first, second, 2]
    }
}

/// Three keys have exactly one stable ascending order.
pub proof fn lemma_stable_order_unique(keys: [i32; 3], a: [usize; 3], b: [usize; 3])
    requires
        is_stable_order(keys, a),
        is_stable_order(keys, b),
    ensures
        a == b,
{
    assert(a[0] == b[0] && a[1] == b[1] && a[2] == b[2]);
    assert(a =~= b);
}

/// One horizontal run of fragments: row `y` of plane space, starting at
/// column `x_left` and going right one pixel per entry of `depths`, which
/// holds the depth rank of each fragment.
#[derive(Clone, Debug)]
pub struct Span {
    pub y: i32,
    pub x_left: i32,
    pub depths: Vec<i32>,
}

impl Span {
    /// The plane-space point of fragment number `k`.
    pub open spec fn spec_point(self, k: int) -> Point {
        Point::spec_new(self.x_left + k, self.y as int)
    }

    /// Whether no fragment of the span falls on the canvas.
    pub open spec fn off_canvas(self) -> bool {
        forall|k: int| 0 <= k < self.depths@.len() ==> !on_canvas(#[trigger] self.spec_point(k))
    }

    /// The plane-space point of fragment number `k`.
    pub fn point(&self, k: usize) -> (p: Point)
        ensures
            p == self.spec_point(k as int),
    {
        let k: u64 = k as u64;
        if k >= 0x1_0000_0000u64 {
            Point::new(COORD_MAX, self.y)
        } else {
            let x: i64 = self.x_left as i64 + k as i64;
            if x > COORD_MAX as i64 {
                Point::new(COORD_MAX, self.y)
            } else {
                Point::new(x as i32, self.y)
            }
        }
    }
}

/// The depth buffer after the first `n` fragments of `span` have taken the
/// depth test, from left to right.
pub open spec fn span_cells(cells: Seq<i32>, span: Span, n: int) -> Seq<i32>
    decreases n,
{
    if n <= 0 {
        cells
    } else {
        plotted(span_cells(cells, span, n - 1), span.spec_point(n - 1), span.depths@[n - 1])
    }
}

/// Where fragment number `k` of `span` is drawn, if it is: it takes the
/// depth test after the fragments to its left.
pub open spec fn span_plot(cells: Seq<i32>, span: Span, k: int) -> Option<Point> {
    plot_at(span_cells(cells, span, k), span.spec_point(k), span.depths@[k])
}

/// The depth buffer after `span` has been filled in mode `draw`. Wireframe
/// mode fills nothing.
pub open spec fn filled_span(cells: Seq<i32>, span: Span, draw: Draw) -> Seq<i32> {
    if draw.spec_fills() {
        span_cells(cells, span, span.depths@.len() as int)
    } else {
        cells
    }
}

/// For each fragment of `span`, where it is drawn when the span is filled
/// in mode `draw`. Wireframe mode draws none of them.
pub open spec fn span_plots(cells: Seq<i32>, span: Span, draw: Draw) -> Seq<Option<Point>> {
    Seq::new(
        span.depths@.len(),
        |k: int|
            if draw.spec_fills() {
                span_plot(cells, span, k)
            } else {
                None
            },
    )
}

/// Fills one span: each fragment, from left to right, takes the depth test
/// and on passing it updates the depth buffer. The result says for each
/// fragment where on the canvas it is to be drawn, or `None` if it is not
/// drawn. In wireframe mode no fragment is tested or drawn and the depth
/// buffer stays as it is.
pub fn draw_line_horizontal(
    depth_buffer: &mut DepthBuffer,
    span: &Span,
    draw: Draw,
) -> (plots: Vec<Option<Point>>)
    ensures
        old(depth_buffer)@.len() == cell_count(),
        final(depth_buffer)@ == filled_span(old(depth_buffer)@, *span, draw),
        plots@ == span_plots(old(depth_buffer)@, *span, draw),
{
    proof {
        use_type_invariant(&*depth_buffer);
    }
    let mut plots: Vec<Option<Point>> = Vec::new();
    let fills = draw.fills();
    let mut k: usize = 0;
    while k < span.depths.len()
        invariant
            k <= span.depths.len(),
            fills == draw.spec_fills(),
            plots@.len() == k,
            fills ==> depth_buffer@ == span_cells(old(depth_buffer)@, *span, k as int),
            !fills ==> depth_buffer@ == old(depth_buffer)@,
            forall|j: int|
                0 <= j < k ==> plots@[j] == (if fills {
                    span_plot(old(depth_buffer)@, *span, j)
                } else {
                    None
                }),
        decreases span.depths.len() - k,
    {
        if fills {
            let p = span.point(k);
            let plot = depth_buffer.plot(p, span.depths[k]);
            plots.push(plot);
        } else {
            plots.push(None);
        }
        k += 1;
    }
    assert(plots@ =~= span_plots(old(depth_buffer)@, *span, draw));
    plots
}

/// The depth buffer after the first `n` spans of `spans` have been filled
/// in mode `draw`, in order.
pub open spec fn spans_cells(cells: Seq<i32>, spans: Seq<Span>, draw: Draw, n: int) -> Seq<i32>
    decreases n,
{
    if n <= 0 {
        cells
    } else {
        filled_span(spans_cells(cells, spans, draw, n - 1), spans[n - 1], draw)
    }
}

/// Fills a triangle given as its spans, from the first row to the last.
/// Each span is filled as `draw_line_horizontal` fills it, against the
/// depth buffer that the spans before it left. The result holds the plots
/// of each span.
pub fn fill_triangle(
    depth_buffer: &mut DepthBuffer,
    spans: &Vec<Span>,
    draw: Draw,
) -> (plots: Vec<Vec<Option<Point>>>)
    ensures
        old(depth_buffer)@.len() == cell_count(),
        final(depth_buffer)@ == spans_cells(
            old(depth_buffer)@,
            spans@,
            draw,
            spans@.len() as int,
        ),
        plots@.len() == spans@.len(),
        forall|i: int|
            0 <= i < spans@.len() ==> (#[trigger] plots@[i])@ == span_plots(
                spans_cells(old(depth_buffer)@, spans@, draw, i),
                spans@[i],
                draw,
            ),
{
    proof {
        use_type_invariant(&*depth_buffer);
    }
    let mut plots: Vec<Vec<Option<Point>>> = Vec::new();
    let mut i: usize = 0;
    while i < spans.len()
        invariant
            i <= spans.len(),
            plots@.len() == i,
            depth_buffer@ == spans_cells(old(depth_buffer)@, spans@, draw, i as int),
            forall|j: int|
                0 <= j < i ==> (#[trigger] plots@[j])@ == span_plots(
                    spans_cells(old(depth_buffer)@, spans@, draw, j),
                    spans@[j],
                    draw,
                ),
        decreases spans.len() - i,
    {
        let row = draw_line_horizontal(depth_buffer, &spans[i], draw);
        plots.push(row);
        i += 1;
    }
    plots
}

/// The plane-space points that fall on the canvas are those with x from
/// minus half the width up to, but not including, half the width, and y
/// from just above minus half the height up to half the height. Such a
/// point lands `x` to the right of the middle column and `y` above the
/// middle row.
pub proof fn lemma_on_canvas_window(p: Point)
    ensures
        on_canvas(p) <==> (-(CANVAS_WIDTH / 2) <= p.x < CANVAS_WIDTH / 2 && -(CANVAS_HEIGHT / 2)
            < p.y <= CANVAS_HEIGHT / 2),
        on_canvas(p) ==> spec_plane_to_canvas(p) == (Point {
            x: (CANVAS_WIDTH / 2 + p.x) as i32,
            y: (CANVAS_HEIGHT / 2 - p.y) as i32,
        }),
        on_canvas(p) ==> 0 <= cell_index(spec_plane_to_canvas(p)) < cell_count(),
{
}

/// The depth test never moves a pixel farther away: the buffer keeps its
/// size, no rank goes down, and only the fragment's own pixel can change.
pub proof fn lemma_depth_never_recedes(cells: Seq<i32>, p: Point, depth: i32, j: int)
    requires
        cells.len() == cell_count(),
        0 <= j < cell_count(),
    ensures
        plotted(cells, p, depth).len() == cells.len(),
        plotted(cells, p, depth)[j] >= cells[j],
        j != cell_index(spec_plane_to_canvas(p)) ==> plotted(cells, p, depth)[j] == cells[j],
{
}

/// Filling never moves a pixel farther away: after any number of fragments
/// of a span the buffer has kept its size and no rank has gone down.
pub proof fn lemma_span_never_recedes(cells: Seq<i32>, span: Span, n: int, j: int)
    requires
        cells.len() == cell_count(),
        n <= span.depths@.len(),
        0 <= j < cell_count(),
    ensures
        span_cells(cells, span, n).len() == cells.len(),
        span_cells(cells, span, n)[j] >= cells[j],
    decreases n,
{
    if n > 0 {
        lemma_span_never_recedes(cells, span, n - 1, j);
        lemma_depth_never_recedes(
            span_cells(cells, span, n - 1),
            span.spec_point(n - 1),
            span.depths@[n - 1],
            j,
        );
    }
}

/// The same for a whole triangle, in every mode.
pub proof fn lemma_fill_never_recedes(
    cells: Seq<i32>,
    spans: Seq<Span>,
    draw: Draw,
    n: int,
    j: int,
)
    requires
        cells.len() == cell_count(),
        n <= spans.len(),
        0 <= j < cell_count(),
    ensures
        spans_cells(cells, spans, draw, n).len() == cells.len(),
        spans_cells(cells, spans, draw, n)[j] >= cells[j],
    decreases n,
{
    if n > 0 {
        lemma_fill_never_recedes(cells, spans, draw, n - 1, j);
        let before = spans_cells(cells, spans, draw, n - 1);
        lemma_span_never_recedes(before, spans[n - 1], spans[n - 1].depths@.len() as int, j);
    }
}

/// The fragments of a span fall on different pixels, so none of them gets in
/// the way of another: each is tested against the depth that its pixel held
/// before the span, and a pixel under the span ends up with the closer of
/// its old depth and its fragment's.
pub proof fn lemma_span_fragments_independent(cells: Seq<i32>, span: Span, k: int)
    requires
        cells.len() == cell_count(),
        0 <= k < span.depths@.len(),
    ensures
        span_plot(cells, span, k) == plot_at(cells, span.spec_point(k), span.depths@[k]),
        on_canvas(span.spec_point(k)) ==> span_cells(cells, span, span.depths@.len() as int)[cell_index(
            spec_plane_to_canvas(span.spec_point(k)),
        )] == (if span.depths@[k] > cells[cell_index(spec_plane_to_canvas(span.spec_point(k)))] {
            span.depths@[k]
        } else {
            cells[cell_index(spec_plane_to_canvas(span.spec_point(k)))]
        }),
{
    let p = span.spec_point(k);
    let len = span.depths@.len() as int;
    lemma_on_canvas_window(p);
    lemma_span_never_recedes(cells, span, k, 0);
    if on_canvas(p) {
        let idx = cell_index(spec_plane_to_canvas(p));
        lemma_span_skips_pixel(cells, span, 0, k, k);
        assert(span_cells(cells, span, k)[idx] == cells[idx]);
        assert(span_cells(cells, span, k + 1)[idx] == (if span.depths@[k] > cells[idx] {
            span.depths@[k]
        } else {
            cells[idx]
        }));
        lemma_span_skips_pixel(cells, span, k + 1, len, k);
    }
}

/// The fragments numbered from `from` up to `to` leave the pixel of
/// fragment `k` alone when `k` is not among them.
proof fn lemma_span_skips_pixel(cells: Seq<i32>, span: Span, from: int, to: int, k: int)
    requires
        cells.len() == cell_count(),
        0 <= from <= to <= span.depths@.len(),
        0 <= k < span.depths@.len(),
        k < from || to <= k,
        on_canvas(span.spec_point(k)),
    ensures
        span_cells(cells, span, to)[cell_index(spec_plane_to_canvas(span.spec_point(k)))]
            == span_cells(cells, span, from)[cell_index(spec_plane_to_canvas(span.spec_point(k)))],
    decreases to - from,
{
    if from < to {
        lemma_span_skips_pixel(cells, span, from, to - 1, k);
        lemma_span_never_recedes(cells, span, to - 1, 0);
        lemma_on_canvas_window(span.spec_point(k));
        lemma_on_canvas_window(span.spec_point(to - 1));
        lemma_depth_never_recedes(
            span_cells(cells, span, to - 1),
            span.spec_point(to - 1),
            span.depths@[to - 1],
            cell_index(spec_plane_to_canvas(span.spec_point(k))),
        );
    }
}

/// Depth ordering. Take two fragments on the same canvas pixel, one nearer
/// than the other, and a pixel that holds nothing as near as the nearer
/// one. Whichever of the two is drawn first, the pixel ends up holding the
/// nearer depth, and the nearer fragment is the last one drawn there: drawn
/// first, it keeps the farther one out; drawn second, it covers it.
pub proof fn lemma_nearer_wins(cells: Seq<i32>, p: Point, near: i32, far: i32)
    requires
        cells.len() == cell_count(),
        on_canvas(p),
        far < near,
        cells[cell_index(spec_plane_to_canvas(p))] < near,
    ensures
        plotted(plotted(cells, p, near), p, far) == plotted(plotted(cells, p, far), p, near),
        plotted(plotted(cells, p, near), p, far)[cell_index(spec_plane_to_canvas(p))] == near,
        hits(cells, p, near),
        !hits(plotted(cells, p, near), p, far),
        hits(plotted(cells, p, far), p, near),
{
    lemma_on_canvas_window(p);
    assert(plotted(plotted(cells, p, near), p, far) =~= plotted(plotted(cells, p, far), p, near));
}

/// What the depth buffer holds in the end does not depend on the order in
/// which two fragments are drawn, wherever they fall.
pub proof fn lemma_draw_order_free(cells: Seq<i32>, p: Point, a: i32, q: Point, b: i32)
    requires
        cells.len() == cell_count(),
    ensures
        plotted(plotted(cells, p, a), q, b) == plotted(plotted(cells, q, b), p, a),
{
    lemma_on_canvas_window(p);
    lemma_on_canvas_window(q);
    assert(plotted(plotted(cells, p, a), q, b) =~= plotted(plotted(cells, q, b), p, a));
}

/// A span with no fragment on the canvas draws nothing and leaves the depth
/// buffer as it was, in every mode.
pub proof fn lemma_off_canvas_span(cells: Seq<i32>, span: Span, draw: Draw)
    requires
        span.off_canvas(),
    ensures
        filled_span(cells, span, draw) == cells,
        forall|k: int|
            0 <= k < span.depths@.len() ==> (#[trigger] span_plots(cells, span, draw)[k]) is None,
{
    lemma_off_canvas_prefix(cells, span, span.depths@.len() as int);
    assert forall|k: int| 0 <= k < span.depths@.len() implies (#[trigger] span_plots(
        cells,
        span,
        draw,
    )[k]) is None by {
        assert(!on_canvas(span.spec_point(k)));
    }
}

proof fn lemma_off_canvas_prefix(cells: Seq<i32>, span: Span, n: int)
    requires
        span.off_canvas(),
        n <= span.depths@.len(),
    ensures
        span_cells(cells, span, n) == cells,
    decreases n,
{
    if n > 0 {
        lemma_off_canvas_prefix(cells, span, n - 1);
        assert(!on_canvas(span.spec_point(n - 1)));
    }
}

/// A triangle whose spans all lie off the canvas draws no pixel and leaves
/// the depth buffer unmodified.
pub proof fn lemma_off_canvas_triangle(cells: Seq<i32>, spans: Seq<Span>, draw: Draw, n: int)
    requires
        n <= spans.len(),
        forall|i: int| 0 <= i < spans.len() ==> (#[trigger] spans[i]).off_canvas(),
    ensures
        spans_cells(cells, spans, draw, n) == cells,
        forall|i: int, k: int|
            0 <= i < n && 0 <= k < spans[i].depths@.len() ==> (#[trigger] span_plots(
                spans_cells(cells, spans, draw, i),
                spans[i],
                draw,
            )[k]) is None,
    decreases n,
{
    if n > 0 {
        lemma_off_canvas_triangle(cells, spans, draw, n - 1);
        assert(spans[n - 1].off_canvas());
        lemma_off_canvas_span(cells, spans[n - 1], draw);
    }
}

/// Wireframe mode never touches the depth buffer and fills no pixel,
/// whatever the spans hold, even fragments that would pass the depth test.
pub proof fn lemma_wireframe_keeps_depth(cells: Seq<i32>, spans: Seq<Span>, n: int)
    requires
        n <= spans.len(),
    ensures
        spans_cells(cells, spans, Draw::Wireframe, n) == cells,
        forall|i: int, k: int|
            0 <= i < n && 0 <= k < spans[i].depths@.len() ==> (#[trigger] span_plots(
                spans_cells(cells, spans, Draw::Wireframe, i),
                spans[i],
                Draw::Wireframe,
            )[k]) is None,
    decreases n,
{
    if n > 0 {
        lemma_wireframe_keeps_depth(cells, spans, n - 1);
    }
}

} // verus!
