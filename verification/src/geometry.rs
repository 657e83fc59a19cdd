//! Positions, directions, placements, rays and triangles.

use vstd::prelude::*;
use crate::intersect::{cross_ray, crossing, hit_view, meets, Hit, Ray3, Tri3, Wide};
use crate::vector::Vec3;

verus! {

/// A position on the lattice, in object space or in world space.
#[derive(Clone, Copy, Debug, PartialEq, Eq, Structural)]
pub struct Point3 {
    pub x: i32,
    pub y: i32,
    pub z: i32,
}

impl View for Point3 {
    type V = Vec3;

    open spec fn view(&self) -> Vec3 {
        Vec3 { x: self.x as int, y: self.y as int, z: self.z as int }
    }
}

/// A direction; its length carries no meaning.
#[derive(Clone, Copy, Debug, PartialEq, Eq, Structural)]
pub struct Vector3 {
    pub x: i32,
    pub y: i32,
    pub z: i32,
}

impl View for Vector3 {
    type V = Vec3;

    open spec fn view(&self) -> Vec3 {
        Vec3 { x: self.x as int, y: self.y as int, z: self.z as int }
    }
}

/// An orientation as three angles in whole degrees. It is stored with a
/// placement and with a camera; no computation reads it.
#[derive(Clone, Copy, Debug, PartialEq, Eq, Structural)]
pub struct Rotation {
    pub pitch: i32,
    pub yaw: i32,
    pub roll: i32,
}

/// The placement of a mesh in the world.
#[derive(Clone, Copy, Debug, PartialEq, Eq, Structural)]
pub struct Transform {
    pub rotation: Rotation,
    pub translation: Point3,
}

/// A half-line: every point `origin + t * direction` with `t >= 0`.
#[derive(Clone, Copy, Debug, PartialEq, Eq, Structural)]
pub struct Ray {
    pub origin: Point3,
    pub direction: Vector3,
}

impl View for Ray {
    type V = Ray3;

    open spec fn view(&self) -> Ray3 {
        Ray3 { origin: self.origin@, direction: self.direction@ }
    }
}

/// Three corners. A triangle without area is accepted; no ray meets it.
#[derive(Clone, Copy, Debug, PartialEq, Eq, Structural)]
pub struct Triangle {
    pub v1: Point3,
    pub v2: Point3,
    pub v3: Point3,
}

impl View for Triangle {
    type V = Tri3;

    open spec fn view(&self) -> Tri3 {
        Tri3 { a: self.v1@, b: self.v2@, c: self.v3@ }
    }
}

/// The components of a position still fit a lattice coordinate.
pub open spec fn fits(v: Vec3) -> bool {
    &&& i32::MIN <= v.x <= i32::MAX
    &&& i32::MIN <= v.y <= i32::MAX
    &&& i32::MIN <= v.z <= i32::MAX
}

impl Point3 {
    /// The position as a vector with room for arithmetic.
    pub(crate) fn widen(&self) -> (r: Wide)
        ensures
            r.vec() == self@,
    {
        Wide { x: self.x as i128, y: self.y as i128, z: self.z as i128 }
    }

    /// The position moved by `t`, where that is still a position on the lattice.
    pub fn translated(&self, t: &Point3) -> (r: Option<Point3>)
        ensures
            match r {
                Some(q) => q@ == self@.plus(t@),
                None => !fits(self@.plus(t@)),
            },
    {
        let x: i64 = self.x as i64 + t.x as i64;
        let y: i64 = self.y as i64 + t.y as i64;
        let z: i64 = self.z as i64 + t.z as i64;
        if x < i32::MIN as i64 || x > i32::MAX as i64 || y < i32::MIN as i64 || y > i32::MAX as i64
            || z < i32::MIN as i64 || z > i32::MAX as i64 {
            None
        } else {
            Some(Point3 { x: x as i32, y: y as i32, z: z as i32 })
        }
    }
}

impl Vector3 {
    /// The direction as a vector with room for arithmetic.
    pub(crate) fn widen(&self) -> (r: Wide)
        ensures
            r.vec() == self@,
    {
        Wide { x: self.x as i128, y: self.y as i128, z: self.z as i128 }
    }
}

impl Triangle {
    /// Tests the ray against the triangle placed at `shift`: `None` when the
    /// ray misses it, else the crossing.
    pub(crate) fn intersect_shifted(&self, ray: &Ray, shift: &Point3) -> (r: Option<Hit>)
        ensures
            hit_view(r) == crossing(ray@, self@.shifted(shift@)),
    {
        let a = self.v1.widen();
        let t = shift.widen();
        let s = ray.origin.widen().minus(&a).minus(&t);
        let d = ray.direction.widen();
        let e1 = self.v2.widen().minus(&a);
        let e2 = self.v3.widen().minus(&a);
        proof {
            let tri = self@.shifted(shift@);
            assert(s.vec() == ray.origin@.minus(tri.a));
            assert(e1.vec() == tri.b.minus(tri.a));
            assert(e2.vec() == tri.c.minus(tri.a));
        }
        cross_ray(&s, &d, &e1, &e2)
    }

    /// Tests the ray against the triangle, both in one space. The result is
    /// `None` when the ray is parallel to the triangle's plane, when the
    /// crossing lies behind the ray's origin or off the triangle, and when the
    /// triangle has no area. A crossing at distance zero, or on an edge or a
    /// corner, counts; so does one from either side.
    pub fn intersect(&self, ray: &Ray) -> (r: Option<Hit>)
        ensures
            hit_view(r) == crossing(ray@, self@),
    {
        let a = self.v1.widen();
        let s = ray.origin.widen().minus(&a);
        let d = ray.direction.widen();
        let e1 = self.v2.widen().minus(&a);
        let e2 = self.v3.widen().minus(&a);
        cross_ray(&s, &d, &e1, &e2)
    }

    /// Whether the ray meets the triangle.
    pub fn hits_ray(&self, ray: &Ray) -> (hit: bool)
        ensures
            hit == meets(ray@, self@),
    {
        self.intersect(ray).is_some()
    }
}

} // verus!
