//! Separating Axis Theorem collision detection.
//!
//! Two convex polygons overlap exactly when no line exists on which their
//! projections are disjoint; for convex shapes it suffices to test the
//! normals of both polygons' edges. The engine works on integer
//! coordinates so that every dot product is exact.

use vstd::prelude::*;

pub mod collider;
pub mod laws;

verus! {

/// Largest coordinate magnitude the engine accepts. The bound is chosen so
/// that a dot product of an edge normal with a vertex never exceeds `i64`:
/// normals of edges between in-range vertices have components of magnitude
/// at most `2 * COORD_LIMIT`, so a dot product is at most
/// `4 * COORD_LIMIT * COORD_LIMIT = 2^62`.
pub const COORD_LIMIT: i64 = 0x4000_0000;

/// A two-dimensional vector with integer coordinates.
#[derive(Clone, Copy, PartialEq, Eq, Structural, Debug)]
pub struct Vec2 {
    pub x: i64,
    pub y: i64,
}

/// Both coordinates of `v` lie within `COORD_LIMIT`.
pub open spec fn in_bounds(v: Vec2) -> bool {
    &&& -COORD_LIMIT <= v.x <= COORD_LIMIT
    &&& -COORD_LIMIT <= v.y <= COORD_LIMIT
}

/// Every vertex of `vs` lies within `COORD_LIMIT`.
pub open spec fn bounded(vs: Seq<Vec2>) -> bool {
    forall|i: int| 0 <= i < vs.len() ==> in_bounds(#[trigger] vs[i])
}

/// Both components of the axis `a` lie within `2 * COORD_LIMIT`, the range
/// of edge normals of in-bounds polygons.
pub open spec fn axis_in_bounds(a: Vec2) -> bool {
    &&& -2 * COORD_LIMIT <= a.x <= 2 * COORD_LIMIT
    &&& -2 * COORD_LIMIT <= a.y <= 2 * COORD_LIMIT
}

/// The scalar projection of the point `v` onto the axis `(ax, ay)`.
pub open spec fn dot(ax: int, ay: int, v: Vec2) -> int {
    ax * v.x + ay * v.y
}

proof fn lemma_dot_products_bounded(a: Vec2, b: Vec2)
    requires
        axis_in_bounds(a),
        in_bounds(b),
    ensures
        -0x2000_0000_0000_0000 <= a.x * b.x <= 0x2000_0000_0000_0000,
        -0x2000_0000_0000_0000 <= a.y * b.y <= 0x2000_0000_0000_0000,
{
    assert(-0x2000_0000_0000_0000 <= a.x * b.x <= 0x2000_0000_0000_0000)
        by (nonlinear_arith)
        requires
            -0x8000_0000 <= a.x <= 0x8000_0000,
            -0x4000_0000 <= b.x <= 0x4000_0000,
    ;
    assert(-0x2000_0000_0000_0000 <= a.y * b.y <= 0x2000_0000_0000_0000)
        by (nonlinear_arith)
        requires
            -0x8000_0000 <= a.y <= 0x8000_0000,
            -0x4000_0000 <= b.y <= 0x4000_0000,
    ;
}

/// The exact dot product of an in-range axis with an in-range point.
fn dot_i64(a: &Vec2, b: &Vec2) -> (r: i64)
    requires
        axis_in_bounds(*a),
        in_bounds(*b),
    ensures
        r == dot(a.x as int, a.y as int, *b),
{
    proof {
        lemma_dot_products_bounded(*a, *b);
    }
    a.x * b.x + a.y * b.y
}

/// The least scalar projection of any vertex of `vs` onto `(ax, ay)`.
/// Meaningful only for `vs.len() >= 1`.
pub open spec fn proj_min(ax: int, ay: int, vs: Seq<Vec2>) -> int
    decreases vs.len(),
{
    if vs.len() <= 1 {
        dot(ax, ay, vs[0])
    } else {
        let rest = proj_min(ax, ay, vs.drop_last());
        let last = dot(ax, ay, vs.last());
        if last < rest {
            last
        } else {
            rest
        }
    }
}

/// The greatest scalar projection of any vertex of `vs` onto `(ax, ay)`.
/// Meaningful only for `vs.len() >= 1`.
pub open spec fn proj_max(ax: int, ay: int, vs: Seq<Vec2>) -> int
    decreases vs.len(),
{
    if vs.len() <= 1 {
        dot(ax, ay, vs[0])
    } else {
        let rest = proj_max(ax, ay, vs.drop_last());
        let last = dot(ax, ay, vs.last());
        if last > rest {
            last
        } else {
            rest
        }
    }
}

/// The normal of the polygon edge that starts at vertex `i`: for the edge
/// vector `e` from vertex `i + 1` (cyclically) to vertex `i`, the normal is
/// `e` rotated by a quarter turn, `(-e.y, e.x)`. It is not normalized:
/// magnitude is irrelevant because both polygons are compared on the same
/// axis. The pair is `(x component, y component)`.
pub open spec fn edge_axis(vs: Seq<Vec2>, i: int) -> (int, int) {
    let j = if i + 1 < vs.len() { i + 1 } else { 0 };
    (vs[j].y - vs[i].y, vs[i].x - vs[j].x)
}

/// The projections of `p` and `q` onto the axis `(ax, ay)` overlap.
pub open spec fn axis_overlap(ax: int, ay: int, p: Seq<Vec2>, q: Seq<Vec2>) -> bool {
    &&& proj_max(ax, ay, p) > proj_min(ax, ay, q)
    &&& proj_min(ax, ay, p) < proj_max(ax, ay, q)
}

/// The projections of `p` and `q` overlap on the normal of `src`'s edge `i`.
pub open spec fn overlap_on_edge_axis(src: Seq<Vec2>, i: int, p: Seq<Vec2>, q: Seq<Vec2>) -> bool {
    axis_overlap(edge_axis(src, i).0, edge_axis(src, i).1, p, q)
}

/// The projections of `p` and `q` overlap on the normal of every edge of `src`.
pub open spec fn overlap_on_axes_of(src: Seq<Vec2>, p: Seq<Vec2>, q: Seq<Vec2>) -> bool {
    forall|i: int| 0 <= i < src.len() ==> #[trigger] overlap_on_edge_axis(src, i, p, q)
}

/// The Separating Axis Theorem's overlap condition: the polygons overlap
/// exactly when no edge normal of either polygon separates their projections.
pub open spec fn polys_overlap(p: Seq<Vec2>, q: Seq<Vec2>) -> bool {
    &&& overlap_on_axes_of(p, p, q)
    &&& overlap_on_axes_of(q, p, q)
}

/// The error reported when a polygon presents an empty vertex sequence.
/// A valid convex shape always has at least one vertex, so meeting this
/// error indicates a malformed shape definition, not a transient condition.
#[derive(Clone, Copy, PartialEq, Eq, Structural, Debug)]
pub struct InvalidPolygon;

/// A projection of a shape on an axis: the interval `[min, max]` that the
/// shape's vertices occupy on the axis.
#[derive(Clone, Copy, PartialEq, Eq, Structural, Debug)]
pub struct Projection {
    /// The axis the projection was taken on.
    pub axis: Vec2,
    pub min: i64,
    pub max: i64,
}

impl Projection {
    fn new(axis: &Vec2, init: &Vec2) -> (p: Projection)
        requires
            axis_in_bounds(*axis),
            in_bounds(*init),
        ensures
            p.axis == *axis,
            p.min == dot(axis.x as int, axis.y as int, *init),
            p.max == dot(axis.x as int, axis.y as int, *init),
    {
        let init_dot = dot_i64(axis, init);
        Projection { axis: *axis, min: init_dot, max: init_dot }
    }

    fn add(self, point: &Vec2) -> (p: Projection)
        requires
            axis_in_bounds(self.axis),
            in_bounds(*point),
        ensures
            p.axis == self.axis,
            p.min == if dot(self.axis.x as int, self.axis.y as int, *point)
                < self.min { dot(self.axis.x as int, self.axis.y as int, *point) }
                else { self.min as int },
            p.max == if dot(self.axis.x as int, self.axis.y as int, *point)
                > self.max { dot(self.axis.x as int, self.axis.y as int, *point) }
                else { self.max as int },
    {
        let mut next = self;
        let d = dot_i64(&next.axis, point);
        if d < next.min {
            next.min = d;
        }
        if d > next.max {
            next.max = d;
        }
        next
    }

    /// Tests if two projections are overlapping. Intervals that merely touch
    /// at an endpoint are not considered overlapping.
    pub fn overlap(&self, other: &Projection) -> (r: bool)
        ensures
            r == (self.max > other.min && self.min < other.max),
    {
        self.max > other.min && self.min < other.max
    }

    /// Projects a polygon on a given axis: the interval its vertices occupy,
    /// or `InvalidPolygon` when the polygon reports zero vertices.
    pub fn project<T: Polygon>(axis: &Vec2, polygon: &T) -> (r: Result<
        Projection,
        InvalidPolygon,
    >)
        requires
            axis_in_bounds(*axis),
            bounded(polygon.polygon()),
        ensures
            r is Err <==> polygon.polygon().len() == 0,
            r matches Ok(p) ==> {
                &&& p.axis == *axis
                &&& p.min == proj_min(axis.x as int, axis.y as int, polygon.polygon())
                &&& p.max == proj_max(axis.x as int, axis.y as int, polygon.polygon())
            },
    {
        let vertices = polygon.vertices();
        if vertices.len() == 0 {
            return Err(InvalidPolygon);
        }
        Ok(project_points(axis, vertices))
    }
}

/// The normal of the edge of `vs` that starts at vertex `i`, exactly
/// `edge_axis(vs@, i)`.
fn axis(vs: &[Vec2], i: usize) -> (a: Vec2)
    requires
        bounded(vs@),
        i < vs@.len(),
    ensures
        a.x == edge_axis(vs@, i as int).0,
        a.y == edge_axis(vs@, i as int).1,
        axis_in_bounds(a),
{
    let n = vs.len();
    let j: usize = if i < n - 1 {
        i + 1
    } else {
        0
    };
    Vec2 { x: vs[j].y - vs[i].y, y: vs[i].x - vs[j].x }
}

/// Folds every vertex of `vs` into the interval it occupies on `axis`.
fn project_points(axis: &Vec2, vs: &[Vec2]) -> (p: Projection)
    requires
        axis_in_bounds(*axis),
        bounded(vs@),
        vs@.len() >= 1,
    ensures
        p.axis == *axis,
        p.min == proj_min(axis.x as int, axis.y as int, vs@),
        p.max == proj_max(axis.x as int, axis.y as int, vs@),
{
    let mut p = Projection::new(axis, &vs[0]);
    let mut i: usize = 1;
    while i < vs.len()
        invariant
            1 <= i <= vs@.len(),
            axis_in_bounds(*axis),
            bounded(vs@),
            p.axis == *axis,
            p.min == proj_min(axis.x as int, axis.y as int, vs@.take(i as int)),
            p.max == proj_max(axis.x as int, axis.y as int, vs@.take(i as int)),
        decreases vs@.len() - i,
    {
        proof {
            assert(vs@.take(i as int + 1).drop_last() =~= vs@.take(i as int));
            assert(vs@.take(i as int + 1).last() == vs@[i as int]);
        }
        p = p.add(&vs[i]);
        i += 1;
    }
    proof {
        assert(vs@.take(vs@.len() as int) =~= vs@);
    }
    p
}

/// Tests the projections of `p` and `q` on the normal of every edge of
/// `src`, exactly `overlap_on_axes_of(src@, p@, q@)`.
fn overlap_on_all_axes(src: &[Vec2], p: &[Vec2], q: &[Vec2]) -> (r: bool)
    requires
        bounded(src@),
        bounded(p@),
        bounded(q@),
        p@.len() >= 1,
        q@.len() >= 1,
    ensures
        r == overlap_on_axes_of(src@, p@, q@),
{
    let n = src.len();
    let mut i: usize = 0;
    while i < n
        invariant
            0 <= i <= n,
            n == src@.len(),
            bounded(src@),
            bounded(p@),
            bounded(q@),
            p@.len() >= 1,
            q@.len() >= 1,
            forall|j: int| 0 <= j < i ==> #[trigger] overlap_on_edge_axis(src@, j, p@, q@),
        decreases n - i,
    {
        let a = axis(src, i);
        let p_proj = project_points(&a, p);
        let q_proj = project_points(&a, q);
        if !p_proj.overlap(&q_proj) {
            proof {
                assert(!overlap_on_edge_axis(src@, i as int, p@, q@));
            }
            return false;
        }
        i += 1;
    }
    true
}

/// The `Polygon` trait abstracts shapes to the SAT algorithm.
///
/// Anything implementing this trait must present a convex polygon in
/// [`Polygon::vertices`], with at least one vertex, in consistent winding
/// order. Concave shapes must be broken into convex ones: the algorithm does
/// not validate convexity and silently produces a wrong answer when it is
/// violated.
pub trait Polygon where Self: Sized {
    /// The vertex sequence the shape presents to the engine.
    spec fn polygon(&self) -> Seq<Vec2>;

    fn vertices(&self) -> (r: &[Vec2])
        ensures
            r@ == self.polygon(),
    ;

    /// Tests if two polygons of the same shape type are overlapping
    /// (colliding). Shapes of different types meet in the free [`overlap`].
    fn overlap(&self, other: &Self) -> (r: bool)
        requires
            self.polygon().len() >= 1,
            other.polygon().len() >= 1,
            bounded(self.polygon()),
            bounded(other.polygon()),
        ensures
            r == polys_overlap(self.polygon(), other.polygon()),
    ;
}

/// SAT on bare vertex slices: the worker behind every `overlap`.
pub(crate) fn slices_overlap(p: &[Vec2], q: &[Vec2]) -> (r: bool)
    requires
        p@.len() >= 1,
        q@.len() >= 1,
        bounded(p@),
        bounded(q@),
    ensures
        r == polys_overlap(p@, q@),
{
    if !overlap_on_all_axes(p, p, q) {
        return false;
    }
    overlap_on_all_axes(q, p, q)
}

/// Tests if two polygons are overlapping (colliding): true exactly when no
/// edge normal of either polygon separates their projections.
pub fn overlap<A: Polygon, B: Polygon>(first: &A, second: &B) -> (r: bool)
    requires
        first.polygon().len() >= 1,
        second.polygon().len() >= 1,
        bounded(first.polygon()),
        bounded(second.polygon()),
    ensures
        r == polys_overlap(first.polygon(), second.polygon()),
{
    slices_overlap(first.vertices(), second.vertices())
}

/// A bare vertex list in winding order is itself a polygon: the simplest way
/// to hand an arbitrary convex hull to the engine.
impl Polygon for Vec<Vec2> {
    open spec fn polygon(&self) -> Seq<Vec2> {
        self@
    }

    fn vertices(&self) -> (r: &[Vec2]) {
        self.as_slice()
    }

    fn overlap(&self, other: &Self) -> (r: bool) {
        slices_overlap(self.as_slice(), other.as_slice())
    }
}

} // verus!
