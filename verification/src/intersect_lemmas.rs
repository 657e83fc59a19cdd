//! What holds of the ray-triangle test.

use vstd::prelude::*;
use crate::intersect::{cramer, crossing, crossing_rel, meets, Crossing, Ray3, Tri3};
use crate::vector::{
    lemma_cramer, lemma_cross_anticommutes, lemma_cross_orthogonal, lemma_dot_minus,
    lemma_dot_plus, lemma_dot_scaled, lemma_triple_cyclic, lemma_triple_swaps, Vec3,
};

verus! {

/// Moving a ray and a triangle by the same vector changes nothing between them.
pub proof fn lemma_crossing_shifted(ray: Ray3, tri: Tri3, t: Vec3)
    ensures
        crossing(ray.shifted(t), tri.shifted(t)) == crossing(ray, tri),
        meets(ray.shifted(t), tri.shifted(t)) == meets(ray, tri),
{
    assert(ray.shifted(t).origin.minus(tri.shifted(t).a) == ray.origin.minus(tri.a));
    assert(tri.shifted(t).b.minus(tri.shifted(t).a) == tri.b.minus(tri.a));
    assert(tri.shifted(t).c.minus(tri.shifted(t).a) == tri.c.minus(tri.a));
}

/// The point of a crossing lies on the ray and on the triangle. Both sides are
/// stretched by the denominator: on the left the point at the distance
/// `t_num / den` along the ray, on the right the point of the triangle with the
/// weights `u_num / den` and `v_num / den` on the edges that leave the first
/// corner. The weights are not negative and their sum is at most one, and the
/// distance is not negative.
pub proof fn lemma_crossing_point(ray: Ray3, tri: Tri3)
    requires
        meets(ray, tri),
    ensures
        ({
            let c = crossing(ray, tri).unwrap();
            &&& c.on_triangle()
            &&& ray.origin.scaled(c.den).plus(ray.direction.scaled(c.t_num)) == tri.a.scaled(
                c.den,
            ).plus(tri.b.minus(tri.a).scaled(c.u_num)).plus(tri.c.minus(tri.a).scaled(c.v_num))
        }),
{
    let s = ray.origin.minus(tri.a);
    let d = ray.direction;
    let e1 = tri.b.minus(tri.a);
    let e2 = tri.c.minus(tri.a);
    let c = crossing(ray, tri).unwrap();
    lemma_cramer_normalized(s, d, e1, e2);
    assert(c.den * (ray.origin.x - tri.a.x) == c.den * ray.origin.x - c.den * tri.a.x)
        by (nonlinear_arith);
    assert(c.den * (ray.origin.y - tri.a.y) == c.den * ray.origin.y - c.den * tri.a.y)
        by (nonlinear_arith);
    assert(c.den * (ray.origin.z - tri.a.z) == c.den * ray.origin.z - c.den * tri.a.z)
        by (nonlinear_arith);
}

/// Cramer's rule holds of a crossing with a positive denominator as it holds
/// of the determinants themselves.
pub proof fn lemma_cramer_normalized(s: Vec3, d: Vec3, e1: Vec3, e2: Vec3)
    requires
        crossing_rel(s, d, e1, e2).is_some(),
    ensures
        ({
            let c = crossing_rel(s, d, e1, e2).unwrap();
            s.scaled(c.den) == e1.scaled(c.u_num).plus(e2.scaled(c.v_num)).minus(
                d.scaled(c.t_num),
            )
        }),
{
    let raw = cramer(s, d, e1, e2);
    lemma_cramer(s, d, e1, e2);
    if raw.den < 0 {
        lemma_scaled_negated(s, raw.den);
        lemma_scaled_negated(e1, raw.u_num);
        lemma_scaled_negated(e2, raw.v_num);
        lemma_scaled_negated(d, raw.t_num);
    }
}

/// Stretching by `-k` is stretching by `k` and turning round.
proof fn lemma_scaled_negated(v: Vec3, k: int)
    ensures
        v.scaled(-k).x == -v.scaled(k).x,
        v.scaled(-k).y == -v.scaled(k).y,
        v.scaled(-k).z == -v.scaled(k).z,
{
    assert((-k) * v.x == -(k * v.x)) by (nonlinear_arith);
    assert((-k) * v.y == -(k * v.y)) by (nonlinear_arith);
    assert((-k) * v.z == -(k * v.z)) by (nonlinear_arith);
}

/// The scalar product of both sides of `den s == u e1 + v e2 - t d` with a
/// vector `w`.
proof fn lemma_combination_dot(s: Vec3, d: Vec3, e1: Vec3, e2: Vec3, c: Crossing, w: Vec3)
    requires
        s.scaled(c.den) == e1.scaled(c.u_num).plus(e2.scaled(c.v_num)).minus(d.scaled(c.t_num)),
    ensures
        c.den * s.dot(w) == c.u_num * e1.dot(w) + c.v_num * e2.dot(w) - c.t_num * d.dot(w),
{
    let left = s.scaled(c.den);
    let right = e1.scaled(c.u_num).plus(e2.scaled(c.v_num)).minus(d.scaled(c.t_num));
    assert(left.dot(w) == right.dot(w));
    lemma_dot_scaled(s, c.den, w);
    lemma_dot_minus(e1.scaled(c.u_num).plus(e2.scaled(c.v_num)), d.scaled(c.t_num), w);
    lemma_dot_plus(e1.scaled(c.u_num), e2.scaled(c.v_num), w);
    lemma_dot_scaled(e1, c.u_num, w);
    lemma_dot_scaled(e2, c.v_num, w);
    lemma_dot_scaled(d, c.t_num, w);
}

/// The ray and the triangle share the point that `c` describes: the point at
/// the distance `t_num / den` along the ray is the point of the triangle with
/// the weights `u_num / den` and `v_num / den`, the distance and the weights
/// are not negative, and the weights add up to at most one.
pub open spec fn shares_point(ray: Ray3, tri: Tri3, c: Crossing) -> bool {
    &&& c.on_triangle()
    &&& ray.origin.scaled(c.den).plus(ray.direction.scaled(c.t_num)) == tri.a.scaled(c.den).plus(
        tri.b.minus(tri.a).scaled(c.u_num),
    ).plus(tri.c.minus(tri.a).scaled(c.v_num))
}

/// The volume spanned by the ray's direction and the two edges of the
/// triangle that leave its first corner. It is zero when the ray is parallel
/// to the triangle's plane and when the triangle has no area.
pub open spec fn spanned_volume(ray: Ray3, tri: Tri3) -> int {
    tri.b.minus(tri.a).dot(ray.direction.cross(tri.c.minus(tri.a)))
}

/// What the test decides: a ray meets a triangle where it is not parallel to
/// the triangle's plane, the triangle has an area, and the two share a point.
pub proof fn lemma_meets_iff_shared_point(ray: Ray3, tri: Tri3)
    ensures
        meets(ray, tri) <==> spanned_volume(ray, tri) != 0 && exists|c: Crossing|
            shares_point(ray, tri, c),
{
    if meets(ray, tri) {
        lemma_crossing_point(ray, tri);
        assert(shares_point(ray, tri, crossing(ray, tri).unwrap()));
    }
    if spanned_volume(ray, tri) != 0 && exists|c: Crossing| shares_point(ray, tri, c) {
        let c = choose|c: Crossing| shares_point(ray, tri, c);
        lemma_shared_point_is_crossing(ray, tri, c);
    }
}

/// A point shared by a ray and a triangle is the crossing that the test finds,
/// where the ray is not parallel to the triangle's plane.
pub proof fn lemma_shared_point_is_crossing(ray: Ray3, tri: Tri3, c: Crossing)
    requires
        spanned_volume(ray, tri) != 0,
        shares_point(ray, tri, c),
    ensures
        meets(ray, tri),
        ({
            let f = crossing(ray, tri).unwrap();
            &&& c.t_num * f.den == f.t_num * c.den
            &&& c.u_num * f.den == f.u_num * c.den
            &&& c.v_num * f.den == f.v_num * c.den
        }),
{
    let o = ray.origin;
    let d = ray.direction;
    let s = o.minus(tri.a);
    let e1 = tri.b.minus(tri.a);
    let e2 = tri.c.minus(tri.a);
    let raw = cramer(s, d, e1, e2);
    assert(c.den * (o.x - tri.a.x) == c.den * o.x - c.den * tri.a.x) by (nonlinear_arith);
    assert(c.den * (o.y - tri.a.y) == c.den * o.y - c.den * tri.a.y) by (nonlinear_arith);
    assert(c.den * (o.z - tri.a.z) == c.den * o.z - c.den * tri.a.z) by (nonlinear_arith);
    assert(s.scaled(c.den) == e1.scaled(c.u_num).plus(e2.scaled(c.v_num)).minus(
        d.scaled(c.t_num),
    ));
    // Each of three vectors stands at a right angle to two of `d`, `e1`, `e2`
    // and so singles out one unknown.
    lemma_combination_dot(s, d, e1, e2, c, d.cross(e2));
    lemma_cross_orthogonal(d, e2);
    assert(c.den * raw.u_num == c.u_num * raw.den) by {
        lemma_zero_products(c.v_num, c.t_num);
    }
    lemma_combination_dot(s, d, e1, e2, c, d.cross(e1));
    lemma_cross_orthogonal(d, e1);
    lemma_triple_swaps(e2, d, e1);
    lemma_triple_cyclic(e1, d, e2);
    lemma_triple_swaps(s, d, e1);
    lemma_triple_cyclic(d, s, e1);
    assert(e2.dot(d.cross(e1)) == -raw.den);
    assert(s.dot(d.cross(e1)) == -raw.v_num);
    assert(c.den * raw.v_num == c.v_num * raw.den) by {
        lemma_zero_products(c.u_num, c.t_num);
        lemma_negated_products(c.den, raw.v_num);
        lemma_negated_products(c.v_num, raw.den);
    }
    lemma_combination_dot(s, d, e1, e2, c, e1.cross(e2));
    lemma_cross_orthogonal(e1, e2);
    lemma_triple_cyclic(e2, s, e1);
    lemma_triple_swaps(d, e1, e2);
    assert(s.dot(e1.cross(e2)) == raw.t_num);
    assert(d.dot(e1.cross(e2)) == -raw.den);
    assert(c.den * raw.t_num == c.t_num * raw.den) by {
        lemma_zero_products(c.u_num, c.v_num);
        lemma_negated_products(c.t_num, raw.den);
    }
    lemma_same_quotients(c, raw);
}

/// A product with zero is zero. The solver sees this once the products are
/// written down.
proof fn lemma_zero_products(a: int, b: int)
    ensures
        a * 0 == 0,
        b * 0 == 0,
{
}

/// The sign moves out of a product.
proof fn lemma_negated_products(a: int, b: int)
    ensures
        a * (-b) == -(a * b),
{
    assert(a * (-b) == -(a * b)) by (nonlinear_arith);
}

/// Where a crossing on the triangle and the determinants describe the same
/// three quotients, the determinants pass the test, and with the sign of the
/// denominator made positive they are in proportion to the crossing.
proof fn lemma_same_quotients(c: Crossing, raw: Crossing)
    requires
        c.on_triangle(),
        raw.den != 0,
        c.den * raw.u_num == c.u_num * raw.den,
        c.den * raw.v_num == c.v_num * raw.den,
        c.den * raw.t_num == c.t_num * raw.den,
    ensures
        ({
            let n = if raw.den < 0 {
                raw.flipped()
            } else {
                raw
            };
            &&& n.on_triangle()
            &&& c.t_num * n.den == n.t_num * c.den
            &&& c.u_num * n.den == n.u_num * c.den
            &&& c.v_num * n.den == n.v_num * c.den
        }),
{
    let n = if raw.den < 0 {
        raw.flipped()
    } else {
        raw
    };
    assert(c.den * n.u_num == c.u_num * n.den && c.den * n.v_num == c.v_num * n.den && c.den
        * n.t_num == c.t_num * n.den) by (nonlinear_arith)
        requires
            c.den * raw.u_num == c.u_num * raw.den,
            c.den * raw.v_num == c.v_num * raw.den,
            c.den * raw.t_num == c.t_num * raw.den,
            n == raw || (n.den == -raw.den && n.u_num == -raw.u_num && n.v_num == -raw.v_num
                && n.t_num == -raw.t_num),
    ;
    lemma_quotient_sign(c.den, c.u_num, n.den, n.u_num);
    lemma_quotient_sign(c.den, c.v_num, n.den, n.v_num);
    lemma_quotient_sign(c.den, c.t_num, n.den, n.t_num);
    assert(c.den * (n.den - n.u_num - n.v_num) == (c.den - c.u_num - c.v_num) * n.den)
        by (nonlinear_arith)
        requires
            c.den * n.u_num == c.u_num * n.den,
            c.den * n.v_num == c.v_num * n.den,
    ;
    lemma_quotient_sign(c.den, c.den - c.u_num - c.v_num, n.den, n.den - n.u_num - n.v_num);
    assert(c.t_num * n.den == n.t_num * c.den && c.u_num * n.den == n.u_num * c.den && c.v_num
        * n.den == n.v_num * c.den) by (nonlinear_arith)
        requires
            c.den * n.u_num == c.u_num * n.den,
            c.den * n.v_num == c.v_num * n.den,
            c.den * n.t_num == c.t_num * n.den,
    ;
}

/// Of two equal quotients with positive denominators, one numerator is not
/// negative where the other is not.
proof fn lemma_quotient_sign(den1: int, num1: int, den2: int, num2: int)
    requires
        den1 > 0,
        den2 > 0,
        num1 >= 0,
        den1 * num2 == num1 * den2,
    ensures
        num2 >= 0,
{
    assert(num2 >= 0) by (nonlinear_arith)
        requires
            den1 > 0,
            den2 > 0,
            num1 >= 0,
            den1 * num2 == num1 * den2,
    ;
}

/// No ray meets a triangle without area: one whose corners lie on one line.
pub proof fn lemma_flat_never_hit(ray: Ray3, tri: Tri3)
    requires
        tri.b.minus(tri.a).cross(tri.c.minus(tri.a)) == (Vec3 { x: 0, y: 0, z: 0 }),
    ensures
        !meets(ray, tri),
{
    let e1 = tri.b.minus(tri.a);
    let e2 = tri.c.minus(tri.a);
    let d = ray.direction;
    let n = e2.cross(e1);
    lemma_triple_cyclic(e1, d, e2);
    lemma_cross_anticommutes(e2, e1);
    assert(n == (Vec3 { x: 0, y: 0, z: 0 }));
    assert(d.x * n.x + d.y * n.y + d.z * n.z == 0) by (nonlinear_arith)
        requires
            n.x == 0,
            n.y == 0,
            n.z == 0,
    ;
}

/// No ray meets a triangle of which two corners, or all three, are one point.
pub proof fn lemma_degenerate_never_hit(ray: Ray3, tri: Tri3)
    requires
        tri.a == tri.b || tri.a == tri.c || tri.b == tri.c,
    ensures
        !meets(ray, tri),
{
    let e1 = tri.b.minus(tri.a);
    let e2 = tri.c.minus(tri.a);
    assert(e1.y * e2.z - e1.z * e2.y == 0 && e1.z * e2.x - e1.x * e2.z == 0 && e1.x * e2.y - e1.y
        * e2.x == 0) by (nonlinear_arith)
        requires
            (e1.x == 0 && e1.y == 0 && e1.z == 0) || (e2.x == 0 && e2.y == 0 && e2.z == 0) || (e1.x
                == e2.x && e1.y == e2.y && e1.z == e2.z),
    ;
    assert(e1.cross(e2) == (Vec3 { x: 0, y: 0, z: 0 }));
    lemma_flat_never_hit(ray, tri);
}

/// No ray meets a triangle that lies behind its origin: one whose three
/// corners, seen from the origin, all point against the ray's direction. The
/// line through the ray may still cross the triangle's plane inside the
/// triangle; the crossing then has a negative distance and does not count.
pub proof fn lemma_behind_never_hit(ray: Ray3, tri: Tri3)
    requires
        tri.a.minus(ray.origin).dot(ray.direction) < 0,
        tri.b.minus(ray.origin).dot(ray.direction) < 0,
        tri.c.minus(ray.origin).dot(ray.direction) < 0,
    ensures
        !meets(ray, tri),
{
    if meets(ray, tri) {
        let o = ray.origin;
        let d = ray.direction;
        let s = o.minus(tri.a);
        let e1 = tri.b.minus(tri.a);
        let e2 = tri.c.minus(tri.a);
        let c = crossing(ray, tri).unwrap();
        lemma_cramer_normalized(s, d, e1, e2);
        lemma_combination_dot(s, d, e1, e2, c, d);
        let dd = d.dot(d);
        let fa = tri.a.minus(o).dot(d);
        let fb = tri.b.minus(o).dot(d);
        let fc = tri.c.minus(o).dot(d);
        lemma_dot_minus(tri.a, o, d);
        lemma_dot_minus(tri.b, o, d);
        lemma_dot_minus(tri.c, o, d);
        lemma_dot_minus(o, tri.a, d);
        lemma_dot_minus(tri.b, tri.a, d);
        lemma_dot_minus(tri.c, tri.a, d);
        assert(s.dot(d) == -fa);
        assert(e1.dot(d) == fb - fa);
        assert(e2.dot(d) == fc - fa);
        assert(dd >= 0) by (nonlinear_arith)
            requires
                dd == d.x * d.x + d.y * d.y + d.z * d.z,
        ;
        lemma_weighted_negative(c.den, c.u_num, c.v_num, fa, fb, fc);
        let w = c.den - c.u_num - c.v_num;
        assert(c.u_num * (fb - fa) == c.u_num * fb - c.u_num * fa) by (nonlinear_arith);
        assert(c.v_num * (fc - fa) == c.v_num * fc - c.v_num * fa) by (nonlinear_arith);
        assert(c.den * (-fa) == -(c.den * fa)) by (nonlinear_arith);
        assert(w * fa == c.den * fa - c.u_num * fa - c.v_num * fa) by (nonlinear_arith)
            requires
                w == c.den - c.u_num - c.v_num,
        ;
        assert(c.t_num * dd == c.u_num * fb + c.v_num * fc + w * fa);
        assert(c.t_num * dd >= 0) by (nonlinear_arith)
            requires
                c.t_num >= 0,
                dd >= 0,
        ;
    }
}

/// A sum of three negative numbers with weights that are not negative and not
/// all zero is negative.
proof fn lemma_weighted_negative(den: int, u: int, v: int, fa: int, fb: int, fc: int)
    requires
        den > 0,
        u >= 0,
        v >= 0,
        u + v <= den,
        fa < 0,
        fb < 0,
        fc < 0,
    ensures
        u * fb + v * fc + (den - u - v) * fa < 0,
{
    let w = den - u - v;
    assert(u * fb <= 0 && (u > 0 ==> u * fb < 0)) by (nonlinear_arith)
        requires
            u >= 0,
            fb < 0,
    ;
    assert(v * fc <= 0 && (v > 0 ==> v * fc < 0)) by (nonlinear_arith)
        requires
            v >= 0,
            fc < 0,
    ;
    assert(w * fa <= 0 && (w > 0 ==> w * fa < 0)) by (nonlinear_arith)
        requires
            w >= 0,
            fa < 0,
    ;
}

/// The order of crossings by distance carries over: what is nearer than a
/// crossing is nearer than everything that is not nearer than that crossing.
pub proof fn lemma_nearer_transitive(a: Crossing, b: Crossing, c: Crossing)
    requires
        a.den > 0,
        b.den > 0,
        c.den > 0,
        a.nearer_than(b),
        !c.nearer_than(b),
    ensures
        a.nearer_than(c),
{
    assert((a.t_num * b.den) * c.den < (b.t_num * a.den) * c.den) by (nonlinear_arith)
        requires
            a.t_num * b.den < b.t_num * a.den,
            c.den > 0,
    ;
    assert((b.t_num * c.den) * a.den <= (c.t_num * b.den) * a.den) by (nonlinear_arith)
        requires
            b.t_num * c.den <= c.t_num * b.den,
            a.den > 0,
    ;
    assert((b.t_num * a.den) * c.den == (b.t_num * c.den) * a.den) by (nonlinear_arith);
    assert((a.t_num * b.den) * c.den == (a.t_num * c.den) * b.den) by (nonlinear_arith);
    assert((c.t_num * b.den) * a.den == (c.t_num * a.den) * b.den) by (nonlinear_arith);
    assert(a.t_num * c.den < c.t_num * a.den) by (nonlinear_arith)
        requires
            (a.t_num * c.den) * b.den < (c.t_num * a.den) * b.den,
            b.den > 0,
    ;
}

} // verus!
