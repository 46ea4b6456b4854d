//! Concrete convex shapes that plug into the SAT engine.

use vstd::prelude::*;

use crate::{bounded, in_bounds, Polygon, Vec2, COORD_LIMIT};

verus! {

/// An axis-aligned box: the running example of a shape implementing
/// [`Polygon`]. It keeps its four vertices precomputed, rebuilt whenever
/// origin or size is set.
#[derive(Debug)]
pub struct BoxCollider {
    origin: Vec2,
    size: Vec2,
    vertices: Vec<Vec2>,
}

/// The four vertices of the box with bottom-left corner `origin` and extent
/// `size`, in winding order: bottom-left, top-left, top-right, bottom-right.
pub open spec fn box_vertices(origin: Vec2, size: Vec2) -> Seq<Vec2> {
    seq![
        origin,
        Vec2 { x: origin.x, y: (origin.y + size.y) as i64 },
        Vec2 { x: (origin.x + size.x) as i64, y: (origin.y + size.y) as i64 },
        Vec2 { x: (origin.x + size.x) as i64, y: origin.y },
    ]
}

/// The box's corners stay within the engine's coordinate range, so the sums
/// in `box_vertices` are exact.
pub open spec fn box_in_bounds(origin: Vec2, size: Vec2) -> bool {
    &&& -COORD_LIMIT <= origin.x
    &&& -COORD_LIMIT <= origin.y
    &&& origin.x + size.x <= COORD_LIMIT
    &&& origin.y + size.y <= COORD_LIMIT
}

impl Polygon for BoxCollider {
    closed spec fn polygon(&self) -> Seq<Vec2> {
        self.vertices@
    }

    fn vertices(&self) -> (r: &[Vec2]) {
        self.vertices.as_slice()
    }

    fn overlap(&self, other: &Self) -> (r: bool) {
        crate::slices_overlap(self.vertices.as_slice(), other.vertices.as_slice())
    }
}

impl BoxCollider {
    /// The bottom-left corner the box was built from.
    pub closed spec fn origin_spec(&self) -> Vec2 {
        self.origin
    }

    /// The extent the box was built from.
    pub closed spec fn size_spec(&self) -> Vec2 {
        self.size
    }

    /// Creates a new [`BoxCollider`], where `x` and `y` are the bottom left
    /// corner of the collider, and `w` and `h` are the width and height of
    /// the collider, respectively.
    pub fn new(x: i64, y: i64, w: i64, h: i64) -> (r: BoxCollider)
        requires
            0 < w,
            0 < h,
            -COORD_LIMIT <= x,
            -COORD_LIMIT <= y,
            x + w <= COORD_LIMIT,
            y + h <= COORD_LIMIT,
        ensures
            r.origin_spec() == (Vec2 { x, y }),
            r.size_spec() == (Vec2 { x: w, y: h }),
            r.polygon() == box_vertices(Vec2 { x, y }, Vec2 { x: w, y: h }),
            r.polygon().len() == 4,
            bounded(r.polygon()),
    {
        let mut collider = BoxCollider {
            origin: Vec2 { x, y },
            size: Vec2 { x: w, y: h },
            vertices: Vec::new(),
        };
        collider.rebuild();
        proof {
            assert forall|i: int| 0 <= i < collider.polygon().len() implies in_bounds(
                #[trigger] collider.polygon()[i],
            ) by {
            }
        }
        collider
    }

    fn rebuild(&mut self)
        requires
            box_in_bounds(old(self).origin, old(self).size),
            0 <= old(self).size.x,
            0 <= old(self).size.y,
        ensures
            final(self).origin == old(self).origin,
            final(self).size == old(self).size,
            final(self).vertices@ == box_vertices(old(self).origin, old(self).size),
    {
        let mut verts: Vec<Vec2> = Vec::new();
        verts.push(self.origin);
        verts.push(Vec2 { x: self.origin.x, y: self.origin.y + self.size.y });
        verts.push(Vec2 { x: self.origin.x + self.size.x, y: self.origin.y + self.size.y });
        verts.push(Vec2 { x: self.origin.x + self.size.x, y: self.origin.y });
        self.vertices = verts;
        proof {
            assert(self.vertices@ =~= box_vertices(self.origin, self.size));
        }
    }
}

} // verus!
