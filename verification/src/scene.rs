//! Scenes: meshes in the order in which a ray is tested against them.

use vstd::prelude::*;
use crate::geometry::Ray;
use crate::intersect::{crossing, meets, Crossing, Hit, Ray3};
use crate::intersect_lemmas::{lemma_crossing_shifted, lemma_nearer_transitive};
use crate::vector::Vec3;
use crate::mesh::Mesh;

verus! {

/// A list of meshes. The order is the order of traversal and nothing more: a
/// mesh that comes first is not nearer to any camera.
#[derive(Clone, Debug)]
pub struct Scene {
    pub meshes: Vec<Mesh>,
}

/// A crossing of a ray with a scene: which mesh, which triangle of it, and
/// where.
#[derive(Clone, Copy, Debug, PartialEq, Eq, Structural)]
pub struct SceneHit {
    pub mesh: usize,
    pub triangle: usize,
    pub hit: Hit,
}

/// Which of the triangles that a ray meets counts as the one it hits.
#[derive(Clone, Copy, Debug, PartialEq, Eq, Structural)]
pub enum HitPolicy {
    /// The first in the order of traversal, however far away it lies.
    FirstHit,
    /// The one at the smallest distance along the ray; of several at that
    /// distance the first in the order of traversal.
    NearestHit,
}

/// The triangle `t1` of mesh `m1` is tested before the triangle `t2` of mesh `m2`.
pub open spec fn tested_before(m1: int, t1: int, m2: int, t2: int) -> bool {
    m1 < m2 || (m1 == m2 && t1 < t2)
}

/// The mesh `b` is the mesh `a` moved by `t`: the same triangles in object
/// space, with `t` added to the translation.
pub open spec fn mesh_moved(a: Mesh, b: Mesh, t: Vec3) -> bool {
    a.tris@ == b.tris@ && b.offset() == a.offset().plus(t)
}

/// The scene `b` is the scene `a` with every mesh moved by `t`.
pub open spec fn scene_moved(a: Scene, b: Scene, t: Vec3) -> bool {
    &&& a.meshes@.len() == b.meshes@.len()
    &&& forall|m: int|
        0 <= m < a.meshes@.len() ==> mesh_moved(#[trigger] a.meshes@[m], b.meshes@[m], t)
}

/// A ray moved with a scene meets in the moved scene the triangles that it met
/// before.
pub proof fn lemma_scene_moved(a: Scene, b: Scene, t: Vec3, ray: Ray3)
    requires
        scene_moved(a, b, t),
    ensures
        forall|m: int, k: int|
            a.has_triangle(m, k) ==> b.has_triangle(m, k) && b.hit_at(ray.shifted(t), m, k)
                == #[trigger] a.hit_at(ray, m, k),
        forall|m: int, k: int| #[trigger] b.has_triangle(m, k) ==> a.has_triangle(m, k),
        b.hit_by(ray.shifted(t)) == a.hit_by(ray),
{
    assert forall|m: int, k: int| a.has_triangle(m, k) implies b.has_triangle(m, k) && b.hit_at(
        ray.shifted(t),
        m,
        k,
    ) == #[trigger] a.hit_at(ray, m, k) by {
        let ma = a.meshes@[m];
        let mb = b.meshes@[m];
        assert(mesh_moved(ma, mb, t));
        assert(mb.world_triangle(k) == ma.world_triangle(k).shifted(t));
        lemma_crossing_shifted(ray, ma.world_triangle(k), t);
    }
    assert forall|m: int, k: int| #[trigger] b.has_triangle(m, k) implies a.has_triangle(m, k) by {
        if 0 <= m < a.meshes@.len() {
            assert(mesh_moved(a.meshes@[m], b.meshes@[m], t));
        }
    }
    if a.hit_by(ray) {
        let (m, k) = choose|m: int, k: int| a.has_triangle(m, k) && a.hit_at(ray, m, k);
        assert(b.has_triangle(m, k) && b.hit_at(ray.shifted(t), m, k));
    }
    if b.hit_by(ray.shifted(t)) {
        let (m, k) = choose|m: int, k: int|
            b.has_triangle(m, k) && b.hit_at(ray.shifted(t), m, k);
        assert(a.has_triangle(m, k) && a.hit_at(ray, m, k));
    }
}

impl Scene {
    /// The scene has a triangle `t` of a mesh `m`.
    pub open spec fn has_triangle(&self, m: int, t: int) -> bool {
        0 <= m < self.meshes@.len() && 0 <= t < self.meshes@[m].tris@.len()
    }

    /// The crossing of the ray with the triangle `t` of mesh `m` in world space.
    pub open spec fn crossing_at(&self, ray: Ray3, m: int, t: int) -> Option<Crossing> {
        crossing(ray, self.meshes@[m].world_triangle(t))
    }

    /// The ray meets the triangle `t` of mesh `m` in world space.
    pub open spec fn hit_at(&self, ray: Ray3, m: int, t: int) -> bool {
        meets(ray, self.meshes@[m].world_triangle(t))
    }

    /// `r` is the first triangle in the order of traversal that the ray meets,
    /// with its crossing; `None` where the ray meets no triangle.
    pub open spec fn is_first_hit(&self, ray: Ray3, r: Option<SceneHit>) -> bool {
        match r {
            Some(h) => {
                &&& self.has_triangle(h.mesh as int, h.triangle as int)
                &&& self.crossing_at(ray, h.mesh as int, h.triangle as int) == Some(h.hit@)
                &&& forall|m: int, t: int|
                    self.has_triangle(m, t) && tested_before(m, t, h.mesh as int, h.triangle as int)
                        ==> !#[trigger] self.hit_at(ray, m, t)
            },
            None => forall|m: int, t: int|
                self.has_triangle(m, t) ==> !#[trigger] self.hit_at(ray, m, t),
        }
    }

    /// Of the triangles tested before the triangle `t_end` of mesh `m_end`,
    /// `r` is the one that the ray meets at the smallest distance, and of
    /// several at that distance the first; `None` where the ray meets none of
    /// them.
    pub open spec fn is_nearest_among(
        &self,
        ray: Ray3,
        r: Option<SceneHit>,
        m_end: int,
        t_end: int,
    ) -> bool {
        match r {
            Some(h) => {
                &&& self.has_triangle(h.mesh as int, h.triangle as int)
                &&& tested_before(h.mesh as int, h.triangle as int, m_end, t_end)
                &&& self.crossing_at(ray, h.mesh as int, h.triangle as int) == Some(h.hit@)
                &&& forall|m: int, t: int|
                    self.has_triangle(m, t) && tested_before(m, t, m_end, t_end)
                        && #[trigger] self.hit_at(ray, m, t) ==> {
                        &&& !self.crossing_at(ray, m, t).unwrap().nearer_than(h.hit@)
                        &&& tested_before(m, t, h.mesh as int, h.triangle as int)
                            ==> h.hit@.nearer_than(self.crossing_at(ray, m, t).unwrap())
                    }
            },
            None => forall|m: int, t: int|
                self.has_triangle(m, t) && tested_before(m, t, m_end, t_end)
                    ==> !#[trigger] self.hit_at(ray, m, t),
        }
    }

    /// `r` is the triangle that the ray meets at the smallest distance, and of
    /// several at that distance the first in the order of traversal; `None`
    /// where the ray meets no triangle.
    pub open spec fn is_nearest_hit(&self, ray: Ray3, r: Option<SceneHit>) -> bool {
        self.is_nearest_among(ray, r, self.meshes@.len() as int, 0)
    }

    /// The ray meets some triangle of the scene.
    pub open spec fn hit_by(&self, ray: Ray3) -> bool {
        exists|m: int, t: int| self.has_triangle(m, t) && self.hit_at(ray, m, t)
    }

    /// The first triangle in the order of traversal that the ray meets: meshes
    /// in the order of the scene, the triangles of each in storage order.
    /// Distances are not compared, so a triangle that comes earlier wins over
    /// a nearer one that comes later.
    pub fn first_hit(&self, ray: &Ray) -> (r: Option<SceneHit>)
        ensures
            r.is_some() == self.hit_by(ray@),
            self.is_first_hit(ray@, r),
    {
        let mut m: usize = 0;
        while m < self.meshes.len()
            invariant
                m <= self.meshes@.len(),
                forall|k: int, t: int|
                    self.has_triangle(k, t) && k < m ==> !#[trigger] self.hit_at(ray@, k, t),
            decreases self.meshes@.len() - m,
        {
            match self.meshes[m].first_hit(ray) {
                Some((t, hit)) => {
                    assert(self.has_triangle(m as int, t as int) && self.hit_at(ray@, m as int, t as int));
                    return Some(SceneHit { mesh: m, triangle: t, hit });
                },
                None => {},
            }
            m = m + 1;
        }
        None
    }

    /// The triangle that the ray meets at the smallest distance along the ray;
    /// of several at that distance the first in the order of traversal.
    pub fn nearest_hit(&self, ray: &Ray) -> (r: Option<SceneHit>)
        ensures
            r.is_some() == self.hit_by(ray@),
            self.is_nearest_hit(ray@, r),
    {
        let mut best: Option<SceneHit> = None;
        let mut m: usize = 0;
        while m < self.meshes.len()
            invariant
                m <= self.meshes@.len(),
                self.is_nearest_among(ray@, best, m as int, 0),
            decreases self.meshes@.len() - m,
        {
            let mesh = &self.meshes[m];
            let mut t: usize = 0;
            while t < mesh.tris.len()
                invariant
                    m < self.meshes@.len(),
                    *mesh == self.meshes@[m as int],
                    t <= mesh.tris@.len(),
                    self.is_nearest_among(ray@, best, m as int, t as int),
                decreases mesh.tris@.len() - t,
            {
                let found = mesh.tris[t].intersect_shifted(ray, &mesh.transform.translation);
                let ghost before = best;
                match found {
                    Some(hit) => {
                        assert(self.crossing_at(ray@, m as int, t as int) == Some(hit@));
                        let better = match best {
                            Some(b) => hit.nearer_than(&b.hit),
                            None => true,
                        };
                        if better {
                            best = Some(SceneHit { mesh: m, triangle: t, hit });
                            proof {
                                self.lemma_nearer_replaces(ray@, before, best.unwrap());
                            }
                        }
                    },
                    None => {},
                }
                assert(self.is_nearest_among(ray@, best, m as int, t + 1)) by {
                    assert forall|i: int, j: int|
                        self.has_triangle(i, j) && tested_before(i, j, m as int, t + 1) implies (
                        tested_before(i, j, m as int, t as int) || (i == m && j == t)) by {}
                }
                t = t + 1;
            }
            assert(self.is_nearest_among(ray@, best, m + 1, 0)) by {
                assert forall|i: int, j: int|
                    self.has_triangle(i, j) && tested_before(i, j, m + 1, 0) implies tested_before(
                    i,
                    j,
                    m as int,
                    t as int,
                ) by {}
            }
            m = m + 1;
        }
        proof {
            if self.hit_by(ray@) {
                let (i, j) = choose|i: int, j: int|
                    self.has_triangle(i, j) && self.hit_at(ray@, i, j);
                assert(tested_before(i, j, m as int, 0));
            }
            if best.is_some() {
                let h = best.unwrap();
                assert(self.has_triangle(h.mesh as int, h.triangle as int) && self.hit_at(
                    ray@,
                    h.mesh as int,
                    h.triangle as int,
                ));
            }
        }
        best
    }

    /// A crossing that is nearer than the nearest so far, or the first at all,
    /// is nearer than every crossing found so far.
    proof fn lemma_nearer_replaces(&self, ray: Ray3, before: Option<SceneHit>, h: SceneHit)
        requires
            self.has_triangle(h.mesh as int, h.triangle as int),
            self.crossing_at(ray, h.mesh as int, h.triangle as int) == Some(h.hit@),
            self.is_nearest_among(ray, before, h.mesh as int, h.triangle as int),
            before is Some ==> h.hit@.nearer_than(before.unwrap().hit@),
        ensures
            self.is_nearest_among(ray, Some(h), h.mesh as int, h.triangle + 1),
    {
        assert forall|m: int, t: int|
            self.has_triangle(m, t) && tested_before(m, t, h.mesh as int, h.triangle + 1)
                && #[trigger] self.hit_at(ray, m, t) implies {
            &&& !self.crossing_at(ray, m, t).unwrap().nearer_than(h.hit@)
            &&& tested_before(m, t, h.mesh as int, h.triangle as int) ==> h.hit@.nearer_than(
                self.crossing_at(ray, m, t).unwrap(),
            )
        } by {
            if tested_before(m, t, h.mesh as int, h.triangle as int) {
                let b = before.unwrap();
                let c = self.crossing_at(ray, m, t).unwrap();
                lemma_nearer_transitive(h.hit@, b.hit@, c);
            }
        }
    }

    /// The two policies agree on whether a ray hits the scene at all, and the
    /// nearest hit is not farther away than the first.
    pub proof fn lemma_policies_agree(&self, ray: Ray3, first: Option<SceneHit>, nearest: Option<SceneHit>)
        requires
            self.is_first_hit(ray, first),
            self.is_nearest_hit(ray, nearest),
        ensures
            first is Some <==> nearest is Some,
            first is Some <==> self.hit_by(ray),
            first is Some ==> !first.unwrap().hit@.nearer_than(nearest.unwrap().hit@),
    {
        if first is Some {
            let h = first.unwrap();
            assert(self.hit_at(ray, h.mesh as int, h.triangle as int));
            assert(tested_before(h.mesh as int, h.triangle as int, self.meshes@.len() as int, 0));
        }
        if nearest is Some {
            let h = nearest.unwrap();
            assert(self.hit_at(ray, h.mesh as int, h.triangle as int));
        }
        if self.hit_by(ray) {
            let (m, t) = choose|m: int, t: int| self.has_triangle(m, t) && self.hit_at(ray, m, t);
            assert(tested_before(m, t, self.meshes@.len() as int, 0));
        }
    }

    /// The triangle that the ray hits under the given policy.
    pub fn find_hit(&self, ray: &Ray, policy: HitPolicy) -> (r: Option<SceneHit>)
        ensures
            r.is_some() == self.hit_by(ray@),
            policy == HitPolicy::FirstHit ==> self.is_first_hit(ray@, r),
            policy == HitPolicy::NearestHit ==> self.is_nearest_hit(ray@, r),
    {
        match policy {
            HitPolicy::FirstHit => self.first_hit(ray),
            HitPolicy::NearestHit => self.nearest_hit(ray),
        }
    }
}

} // verus!
