//! Meshes: triangles in object space, placed in the world by a translation.

use vstd::prelude::*;
use crate::geometry::{fits, Point3, Ray, Transform, Triangle};
use crate::intersect::{crossing, meets, Hit, Tri3};

verus! {

/// A list of triangles in object space and the placement of the whole. The
/// world-space triangles are derived from these two whenever they are asked
/// for; nothing else is stored.
#[derive(Clone, Debug)]
pub struct Mesh {
    pub tris: Vec<Triangle>,
    pub transform: Transform,
}

/// The three corners of a triangle are positions on the lattice.
pub open spec fn triangle_fits(t: Tri3) -> bool {
    fits(t.a) && fits(t.b) && fits(t.c)
}

/// The triangles that a list of lattice triangles stands for.
pub open spec fn triangle_views(s: Seq<Triangle>) -> Seq<Tri3> {
    Seq::new(s.len(), |i: int| s[i]@)
}

impl Mesh {
    /// The translation of the placement.
    pub open spec fn offset(&self) -> crate::vector::Vec3 {
        self.transform.translation@
    }

    /// The `i`-th triangle in world space: each corner moved by the
    /// translation. The rotation of the placement is not applied.
    pub open spec fn world_triangle(&self, i: int) -> Tri3 {
        self.tris@[i]@.shifted(self.offset())
    }

    /// All triangles in world space, in storage order.
    pub open spec fn world_triangles(&self) -> Seq<Tri3> {
        Seq::new(self.tris@.len(), |i: int| self.world_triangle(i))
    }

    /// Every world-space corner is a position on the lattice.
    pub open spec fn placeable(&self) -> bool {
        forall|i: int| 0 <= i < self.tris@.len() ==> triangle_fits(#[trigger] self.world_triangle(i))
    }

    /// The position `p` of object space in world space, or `None` where that
    /// leaves the lattice.
    pub fn transform_point(&self, p: &Point3) -> (r: Option<Point3>)
        ensures
            match r {
                Some(q) => q@ == p@.plus(self.offset()),
                None => !fits(p@.plus(self.offset())),
            },
    {
        p.translated(&self.transform.translation)
    }

    /// The triangles in world space, in storage order, or `None` where a
    /// corner leaves the lattice.
    pub fn transform_triangles(&self) -> (r: Option<Vec<Triangle>>)
        ensures
            match r {
                Some(v) => triangle_views(v@) == self.world_triangles(),
                None => !self.placeable(),
            },
    {
        let mut out: Vec<Triangle> = Vec::new();
        let mut i: usize = 0;
        while i < self.tris.len()
            invariant
                i <= self.tris@.len(),
                out@.len() == i,
                forall|j: int| 0 <= j < i ==> (#[trigger] out@[j])@ == self.world_triangle(j),
            decreases self.tris@.len() - i,
        {
            let t = &self.tris[i];
            let n1 = self.transform_point(&t.v1);
            let n2 = self.transform_point(&t.v2);
            let n3 = self.transform_point(&t.v3);
            match (n1, n2, n3) {
                (Some(v1), Some(v2), Some(v3)) => {
                    out.push(Triangle { v1, v2, v3 });
                },
                _ => {
                    assert(!triangle_fits(self.world_triangle(i as int)));
                    return None;
                },
            }
            i = i + 1;
        }
        assert(triangle_views(out@) =~= self.world_triangles());
        Some(out)
    }

    /// The first triangle in storage order that the ray meets in world space,
    /// with the crossing; `None` when the ray meets none.
    pub fn first_hit(&self, ray: &Ray) -> (r: Option<(usize, Hit)>)
        ensures
            match r {
                Some((i, h)) => {
                    &&& i < self.tris@.len()
                    &&& Some(h@) == crossing(ray@, self.world_triangle(i as int))
                    &&& forall|j: int|
                        0 <= j < i ==> !meets(ray@, #[trigger] self.world_triangle(j))
                },
                None => forall|j: int|
                    0 <= j < self.tris@.len() ==> !meets(ray@, #[trigger] self.world_triangle(j)),
            },
    {
        let mut i: usize = 0;
        while i < self.tris.len()
            invariant
                i <= self.tris@.len(),
                forall|j: int|
                    0 <= j < i ==> !meets(ray@, #[trigger] self.world_triangle(j)),
            decreases self.tris@.len() - i,
        {
            match self.tris[i].intersect_shifted(ray, &self.transform.translation) {
                Some(h) => {
                    return Some((i, h));
                },
                None => {},
            }
            i = i + 1;
        }
        None
    }
}

} // verus!
