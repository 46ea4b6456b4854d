//! Laws of the overlap predicate, proved once for all polygons.

use vstd::prelude::*;

use crate::collider::{box_in_bounds, box_vertices};
use crate::{
    dot, edge_axis, overlap_on_edge_axis, polys_overlap, proj_max, proj_min, Vec2,
};

verus! {

/// Symmetry: which polygon comes first does not change the answer.
pub proof fn lemma_overlap_symmetric(p: Seq<Vec2>, q: Seq<Vec2>)
    ensures
        polys_overlap(p, q) == polys_overlap(q, p),
{
    assert forall|i: int|
        0 <= i < p.len() implies (overlap_on_edge_axis(p, i, p, q) == overlap_on_edge_axis(
        p,
        i,
        q,
        p,
    )) by {}
    assert forall|i: int|
        0 <= i < q.len() implies (overlap_on_edge_axis(q, i, p, q) == overlap_on_edge_axis(
        q,
        i,
        q,
        p,
    )) by {}
}

/// The polygon has positive extent along the normal of its edge `i`.
pub open spec fn positive_spread_on(p: Seq<Vec2>, i: int) -> bool {
    proj_min(edge_axis(p, i).0, edge_axis(p, i).1, p) < proj_max(
        edge_axis(p, i).0,
        edge_axis(p, i).1,
        p,
    )
}

/// A polygon is non-degenerate when it has positive extent along each of
/// its own edge normals: it collapses to no segment or point, and no two
/// cyclically-adjacent vertices coincide.
pub open spec fn nondegenerate(p: Seq<Vec2>) -> bool {
    forall|i: int| 0 <= i < p.len() ==> #[trigger] positive_spread_on(p, i)
}

/// Reflexivity: every non-degenerate polygon overlaps itself.
pub proof fn lemma_overlap_reflexive(p: Seq<Vec2>)
    requires
        nondegenerate(p),
    ensures
        polys_overlap(p, p),
{
    assert forall|i: int| 0 <= i < p.len() implies #[trigger] overlap_on_edge_axis(
        p,
        i,
        p,
        p,
    ) by {
        assert(positive_spread_on(p, i));
    }
}

/// Every vertex's projection lies between the polygon's projected bounds.
pub proof fn lemma_proj_bounds(ax: int, ay: int, vs: Seq<Vec2>, i: int)
    requires
        0 <= i < vs.len(),
    ensures
        proj_min(ax, ay, vs) <= dot(ax, ay, vs[i]),
        dot(ax, ay, vs[i]) <= proj_max(ax, ay, vs),
    decreases vs.len(),
{
    if vs.len() > 1 && i < vs.len() - 1 {
        lemma_proj_bounds(ax, ay, vs.drop_last(), i);
    }
}

/// Two vertices with different projections force a positive spread.
pub proof fn lemma_spread_from_witnesses(ax: int, ay: int, vs: Seq<Vec2>, j: int, k: int)
    requires
        0 <= j < vs.len(),
        0 <= k < vs.len(),
        dot(ax, ay, vs[j]) != dot(ax, ay, vs[k]),
    ensures
        proj_min(ax, ay, vs) < proj_max(ax, ay, vs),
{
    lemma_proj_bounds(ax, ay, vs, j);
    lemma_proj_bounds(ax, ay, vs, k);
}

/// A box with positive extent is non-degenerate.
pub proof fn lemma_box_nondegenerate(origin: Vec2, size: Vec2)
    requires
        0 < size.x,
        0 < size.y,
        box_in_bounds(origin, size),
    ensures
        nondegenerate(box_vertices(origin, size)),
{
    let p = box_vertices(origin, size);
    let x = origin.x as int;
    let y = origin.y as int;
    let w = size.x as int;
    let h = size.y as int;
    assert forall|i: int| 0 <= i < p.len() implies #[trigger] positive_spread_on(p, i) by {
        if i == 0 {
            assert(h * x != h * (x + w)) by (nonlinear_arith)
                requires
                    0 < h,
                    0 < w,
            ;
            assert(dot(h, 0, p[0]) == h * x);
            assert(dot(h, 0, p[3]) == h * (x + w));
            lemma_spread_from_witnesses(h, 0, p, 0, 3);
        } else if i == 1 {
            assert(-w * y != -w * (y + h)) by (nonlinear_arith)
                requires
                    0 < h,
                    0 < w,
            ;
            assert(dot(0, -w, p[0]) == -w * y);
            assert(dot(0, -w, p[1]) == -w * (y + h));
            lemma_spread_from_witnesses(0, -w, p, 0, 1);
        } else if i == 2 {
            assert(-h * x != -h * (x + w)) by (nonlinear_arith)
                requires
                    0 < h,
                    0 < w,
            ;
            assert(dot(-h, 0, p[0]) == -h * x);
            assert(dot(-h, 0, p[3]) == -h * (x + w));
            lemma_spread_from_witnesses(-h, 0, p, 0, 3);
        } else {
            assert(w * y != w * (y + h)) by (nonlinear_arith)
                requires
                    0 < h,
                    0 < w,
            ;
            assert(dot(0, w, p[0]) == w * y);
            assert(dot(0, w, p[1]) == w * (y + h));
            lemma_spread_from_witnesses(0, w, p, 0, 1);
        }
    }
}

/// Reflexivity for the example shape: a box with positive extent overlaps
/// itself.
pub proof fn lemma_box_reflexive(origin: Vec2, size: Vec2)
    requires
        0 < size.x,
        0 < size.y,
        box_in_bounds(origin, size),
    ensures
        polys_overlap(box_vertices(origin, size), box_vertices(origin, size)),
{
    lemma_box_nondegenerate(origin, size);
    lemma_overlap_reflexive(box_vertices(origin, size));
}

/// `p` with every vertex moved by `t`.
pub open spec fn translated(p: Seq<Vec2>, t: Vec2) -> Seq<Vec2> {
    Seq::new(p.len(), |i: int| Vec2 { x: (p[i].x + t.x) as i64, y: (p[i].y + t.y) as i64 })
}

/// Every vertex of `p` moved by `t` still fits in `i64`, so the moved
/// coordinates in `translated` are exact.
pub open spec fn translation_fits(p: Seq<Vec2>, t: Vec2) -> bool {
    forall|i: int|
        0 <= i < p.len() ==> {
            let v = #[trigger] p[i];
            &&& i64::MIN <= v.x + t.x <= i64::MAX
            &&& i64::MIN <= v.y + t.y <= i64::MAX
        }
}

proof fn lemma_dot_translated(ax: int, ay: int, v: Vec2, t: Vec2)
    requires
        i64::MIN <= v.x + t.x <= i64::MAX,
        i64::MIN <= v.y + t.y <= i64::MAX,
    ensures
        dot(ax, ay, Vec2 { x: (v.x + t.x) as i64, y: (v.y + t.y) as i64 }) == dot(ax, ay, v) + ax
            * t.x + ay * t.y,
{
    assert(ax * (v.x + t.x) == ax * v.x + ax * t.x) by (nonlinear_arith);
    assert(ay * (v.y + t.y) == ay * v.y + ay * t.y) by (nonlinear_arith);
}

proof fn lemma_proj_translated(ax: int, ay: int, vs: Seq<Vec2>, t: Vec2)
    requires
        vs.len() >= 1,
        translation_fits(vs, t),
    ensures
        proj_min(ax, ay, translated(vs, t)) == proj_min(ax, ay, vs) + ax * t.x + ay * t.y,
        proj_max(ax, ay, translated(vs, t)) == proj_max(ax, ay, vs) + ax * t.x + ay * t.y,
    decreases vs.len(),
{
    let tv = translated(vs, t);
    if vs.len() == 1 {
        lemma_dot_translated(ax, ay, vs[0], t);
    } else {
        assert(tv.drop_last() =~= translated(vs.drop_last(), t));
        lemma_proj_translated(ax, ay, vs.drop_last(), t);
        lemma_dot_translated(ax, ay, vs.last(), t);
    }
}

/// Translation invariance: moving both polygons by the same vector changes
/// nothing about whether they overlap; in particular non-overlap is kept.
pub proof fn lemma_overlap_translation_invariant(p: Seq<Vec2>, q: Seq<Vec2>, t: Vec2)
    requires
        p.len() >= 1,
        q.len() >= 1,
        translation_fits(p, t),
        translation_fits(q, t),
    ensures
        polys_overlap(translated(p, t), translated(q, t)) == polys_overlap(p, q),
{
    let tp = translated(p, t);
    let tq = translated(q, t);
    assert forall|i: int|
        0 <= i < p.len() implies (overlap_on_edge_axis(tp, i, tp, tq) == overlap_on_edge_axis(
        p,
        i,
        p,
        q,
    )) by {
        assert(edge_axis(tp, i) == edge_axis(p, i));
        let a = edge_axis(p, i);
        lemma_proj_translated(a.0, a.1, p, t);
        lemma_proj_translated(a.0, a.1, q, t);
    }
    assert forall|i: int|
        0 <= i < q.len() implies (overlap_on_edge_axis(tq, i, tp, tq) == overlap_on_edge_axis(
        q,
        i,
        p,
        q,
    )) by {
        assert(edge_axis(tq, i) == edge_axis(q, i));
        let a = edge_axis(q, i);
        lemma_proj_translated(a.0, a.1, p, t);
        lemma_proj_translated(a.0, a.1, q, t);
    }
    assert(tp.len() == p.len());
    assert(tq.len() == q.len());
}

} // verus!
