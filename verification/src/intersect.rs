//! The ray-triangle test.
//!
//! A ray `o + t * d` meets the triangle `(a, b, c)` where
//! `o + t * d == a + u * (b - a) + v * (c - a)` with `t >= 0`, `u >= 0`,
//! `v >= 0` and `u + v <= 1`. The three unknowns solve a linear system, and
//! Cramer's rule gives each as a quotient of two determinants. The test works
//! on the determinants themselves, so it never divides and never rounds.

use vstd::prelude::*;
use crate::vector::{lemma_cross_within, lemma_dot_within, lemma_product_within, Vec3};
use crate::wide::product_less;

verus! {

/// A triangle given by its three corners.
pub struct Tri3 {
    pub a: Vec3,
    pub b: Vec3,
    pub c: Vec3,
}

impl Tri3 {
    /// The triangle moved by the vector `t`.
    pub open spec fn shifted(self, t: Vec3) -> Tri3 {
        Tri3 { a: self.a.plus(t), b: self.b.plus(t), c: self.c.plus(t) }
    }
}

/// A half-line: every point `origin + t * direction` with `t >= 0`.
pub struct Ray3 {
    pub origin: Vec3,
    pub direction: Vec3,
}

impl Ray3 {
    /// The ray moved by the vector `t`; its direction stays.
    pub open spec fn shifted(self, t: Vec3) -> Ray3 {
        Ray3 { origin: self.origin.plus(t), direction: self.direction }
    }
}

/// Where a ray crosses the plane of a triangle: the distance along the ray is
/// `t_num / den` lengths of the ray's direction, and the crossing point is
/// `a + (u_num / den) * (b - a) + (v_num / den) * (c - a)`.
pub struct Crossing {
    pub t_num: int,
    pub u_num: int,
    pub v_num: int,
    pub den: int,
}

impl Crossing {
    /// The same three quotients, with every sign turned.
    pub open spec fn flipped(self) -> Crossing {
        Crossing { t_num: -self.t_num, u_num: -self.u_num, v_num: -self.v_num, den: -self.den }
    }

    /// This crossing lies at a smaller distance along the ray than `o`. Both
    /// denominators are taken to be positive.
    pub open spec fn nearer_than(self, o: Crossing) -> bool {
        self.t_num * o.den < o.t_num * self.den
    }

    /// The crossing lies on the triangle and not behind the ray's origin.
    pub open spec fn on_triangle(self) -> bool {
        &&& self.den > 0
        &&& self.t_num >= 0
        &&& self.u_num >= 0
        &&& self.v_num >= 0
        &&& self.u_num + self.v_num <= self.den
    }
}

/// Cramer's rule for `s == u * e1 + v * e2 - t * d`, with `s` the ray's origin
/// seen from the corner `a`, `d` its direction and `e1`, `e2` the edges that
/// leave `a`.
pub open spec fn cramer(s: Vec3, d: Vec3, e1: Vec3, e2: Vec3) -> Crossing {
    let p = d.cross(e2);
    let q = s.cross(e1);
    Crossing { t_num: e2.dot(q), u_num: s.dot(p), v_num: d.dot(q), den: e1.dot(p) }
}

/// The crossing of a ray with a triangle, both given relative to the corner
/// `a`, with a positive denominator; `None` when the ray is parallel to the
/// triangle's plane, when the triangle has no area, when the crossing lies off
/// the triangle, and when it lies behind the origin.
pub open spec fn crossing_rel(s: Vec3, d: Vec3, e1: Vec3, e2: Vec3) -> Option<Crossing> {
    let c = cramer(s, d, e1, e2);
    let n = if c.den < 0 { c.flipped() } else { c };
    if n.on_triangle() {
        Some(n)
    } else {
        None
    }
}

/// The crossing of a ray with a triangle.
pub open spec fn crossing(ray: Ray3, tri: Tri3) -> Option<Crossing> {
    crossing_rel(
        ray.origin.minus(tri.a),
        ray.direction,
        tri.b.minus(tri.a),
        tri.c.minus(tri.a),
    )
}

/// The ray meets the triangle.
pub open spec fn meets(ray: Ray3, tri: Tri3) -> bool {
    crossing(ray, tri).is_some()
}

/// A crossing of a ray with a triangle, as the renderer hands it out. The
/// denominator is positive; the distance along the ray is `t_num / den`
/// lengths of the ray's direction.
#[derive(Clone, Copy, Debug, PartialEq, Eq, Structural)]
pub struct Hit {
    pub t_num: i128,
    pub u_num: i128,
    pub v_num: i128,
    pub den: i128,
}

impl View for Hit {
    type V = Crossing;

    open spec fn view(&self) -> Crossing {
        Crossing {
            t_num: self.t_num as int,
            u_num: self.u_num as int,
            v_num: self.v_num as int,
            den: self.den as int,
        }
    }
}

impl Hit {
    /// Whether this crossing lies at a smaller distance along its ray than
    /// `other` along the same ray.
    pub fn nearer_than(&self, other: &Hit) -> (nearer: bool)
        requires
            self@.on_triangle(),
            other@.on_triangle(),
        ensures
            nearer == self@.nearer_than(other@),
    {
        product_less(self.t_num as u128, other.den as u128, other.t_num as u128, self.den as u128)
    }
}

/// The crossing that an optional hit stands for.
pub open spec fn hit_view(r: Option<Hit>) -> Option<Crossing> {
    match r {
        Some(h) => Some(h@),
        None => None,
    }
}

/// The largest size of a component of a ray's direction.
pub open spec fn dir_max() -> int {
    0x8000_0000
}

/// The largest size of a component of a triangle's edge.
pub open spec fn edge_max() -> int {
    0x1_0000_0000
}

/// The largest size of a component of the vector from a corner to the origin.
pub open spec fn offset_max() -> int {
    0x2_0000_0000
}

/// A vector with room for every intermediate value of the test.
pub(crate) struct Wide {
    pub x: i128,
    pub y: i128,
    pub z: i128,
}

impl Wide {
    /// The vector that the three components stand for.
    pub(crate) open spec fn vec(&self) -> Vec3 {
        Vec3 { x: self.x as int, y: self.y as int, z: self.z as int }
    }

    /// The difference of two vectors whose components stay small.
    pub(crate) fn minus(&self, o: &Wide) -> (r: Wide)
        requires
            self.vec().within(0x4_0000_0000),
            o.vec().within(0x4_0000_0000),
        ensures
            r.vec() == self.vec().minus(o.vec()),
    {
        Wide { x: self.x - o.x, y: self.y - o.y, z: self.z - o.z }
    }

    /// The scalar product of two bounded vectors.
    pub(crate) fn dot(&self, o: &Wide, Ghost(ma): Ghost<int>, Ghost(mb): Ghost<int>) -> (r: i128)
        requires
            self.vec().within(ma),
            o.vec().within(mb),
            3 * (ma * mb) <= i128::MAX,
        ensures
            r == self.vec().dot(o.vec()),
            -3 * (ma * mb) <= r <= 3 * (ma * mb),
    {
        proof {
            lemma_product_within(self.x as int, o.x as int, ma, mb);
            lemma_product_within(self.y as int, o.y as int, ma, mb);
            lemma_product_within(self.z as int, o.z as int, ma, mb);
            lemma_dot_within(self.vec(), o.vec(), ma, mb);
        }
        self.x * o.x + self.y * o.y + self.z * o.z
    }

    /// The vector product of two bounded vectors.
    pub(crate) fn cross(&self, o: &Wide, Ghost(ma): Ghost<int>, Ghost(mb): Ghost<int>) -> (r: Wide)
        requires
            self.vec().within(ma),
            o.vec().within(mb),
            2 * (ma * mb) <= i128::MAX,
        ensures
            r.vec() == self.vec().cross(o.vec()),
            r.vec().within(2 * (ma * mb)),
    {
        proof {
            lemma_product_within(self.y as int, o.z as int, ma, mb);
            lemma_product_within(self.z as int, o.y as int, ma, mb);
            lemma_product_within(self.z as int, o.x as int, ma, mb);
            lemma_product_within(self.x as int, o.z as int, ma, mb);
            lemma_product_within(self.x as int, o.y as int, ma, mb);
            lemma_product_within(self.y as int, o.x as int, ma, mb);
            lemma_cross_within(self.vec(), o.vec(), ma, mb);
        }
        Wide {
            x: self.y * o.z - self.z * o.y,
            y: self.z * o.x - self.x * o.z,
            z: self.x * o.y - self.y * o.x,
        }
    }
}

/// Tests a ray against a triangle, both given relative to the triangle's first
/// corner: `s` leads from the corner to the ray's origin, `d` is the ray's
/// direction, `e1` and `e2` are the edges that leave the corner.
pub(crate) fn cross_ray(s: &Wide, d: &Wide, e1: &Wide, e2: &Wide) -> (r: Option<Hit>)
    requires
        s.vec().within(offset_max()),
        d.vec().within(dir_max()),
        e1.vec().within(edge_max()),
        e2.vec().within(edge_max()),
    ensures
        hit_view(r) == crossing_rel(s.vec(), d.vec(), e1.vec(), e2.vec()),
{
    let p = d.cross(e2, Ghost(0x8000_0000), Ghost(0x1_0000_0000));
    let q = s.cross(e1, Ghost(0x2_0000_0000), Ghost(0x1_0000_0000));
    assert(p.vec().within(0x1_0000_0000_0000_0000));
    assert(q.vec().within(0x4_0000_0000_0000_0000));
    let den: i128 = e1.dot(&p, Ghost(0x1_0000_0000), Ghost(0x1_0000_0000_0000_0000));
    let u_num: i128 = s.dot(&p, Ghost(0x2_0000_0000), Ghost(0x1_0000_0000_0000_0000));
    let v_num: i128 = d.dot(&q, Ghost(0x8000_0000), Ghost(0x4_0000_0000_0000_0000));
    let t_num: i128 = e2.dot(&q, Ghost(0x1_0000_0000), Ghost(0x4_0000_0000_0000_0000));
    let hit = if den < 0 {
        Hit { t_num: -t_num, u_num: -u_num, v_num: -v_num, den: -den }
    } else {
        Hit { t_num, u_num, v_num, den }
    };
    if hit.den > 0 && hit.t_num >= 0 && hit.u_num >= 0 && hit.v_num >= 0 && hit.u_num
        + hit.v_num <= hit.den {
        Some(hit)
    } else {
        None
    }
}

} // verus!
