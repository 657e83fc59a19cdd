//! Integer vectors in three dimensions, as used in specifications.

use vstd::prelude::*;

verus! {

/// A vector, or a position, with unbounded integer components.
pub struct Vec3 {
    pub x: int,
    pub y: int,
    pub z: int,
}

impl Vec3 {
    /// The componentwise sum.
    pub open spec fn plus(self, o: Vec3) -> Vec3 {
        Vec3 { x: self.x + o.x, y: self.y + o.y, z: self.z + o.z }
    }

    /// The componentwise difference.
    pub open spec fn minus(self, o: Vec3) -> Vec3 {
        Vec3 { x: self.x - o.x, y: self.y - o.y, z: self.z - o.z }
    }

    /// The vector stretched by the factor `k`.
    pub open spec fn scaled(self, k: int) -> Vec3 {
        Vec3 { x: k * self.x, y: k * self.y, z: k * self.z }
    }

    /// The scalar product.
    pub open spec fn dot(self, o: Vec3) -> int {
        self.x * o.x + self.y * o.y + self.z * o.z
    }

    /// The vector product.
    pub open spec fn cross(self, o: Vec3) -> Vec3 {
        Vec3 {
            x: self.y * o.z - self.z * o.y,
            y: self.z * o.x - self.x * o.z,
            z: self.x * o.y - self.y * o.x,
        }
    }

    /// Every component lies between `-m` and `m`.
    pub open spec fn within(self, m: int) -> bool {
        &&& -m <= self.x <= m
        &&& -m <= self.y <= m
        &&& -m <= self.z <= m
    }
}

/// A product of two bounded integers is bounded by the product of the bounds.
pub proof fn lemma_product_within(a: int, b: int, ma: int, mb: int)
    requires
        -ma <= a <= ma,
        -mb <= b <= mb,
    ensures
        -(ma * mb) <= a * b <= ma * mb,
{
    assert(-(ma * mb) <= a * b <= ma * mb) by (nonlinear_arith)
        requires
            -ma <= a <= ma,
            -mb <= b <= mb,
    ;
}

/// The scalar product of two bounded vectors is bounded.
pub proof fn lemma_dot_within(a: Vec3, b: Vec3, ma: int, mb: int)
    requires
        a.within(ma),
        b.within(mb),
    ensures
        -3 * (ma * mb) <= a.dot(b) <= 3 * (ma * mb),
{
    lemma_product_within(a.x, b.x, ma, mb);
    lemma_product_within(a.y, b.y, ma, mb);
    lemma_product_within(a.z, b.z, ma, mb);
}

/// The vector product of two bounded vectors is bounded.
pub proof fn lemma_cross_within(a: Vec3, b: Vec3, ma: int, mb: int)
    requires
        a.within(ma),
        b.within(mb),
    ensures
        a.cross(b).within(2 * (ma * mb)),
{
    lemma_product_within(a.y, b.z, ma, mb);
    lemma_product_within(a.z, b.y, ma, mb);
    lemma_product_within(a.z, b.x, ma, mb);
    lemma_product_within(a.x, b.z, ma, mb);
    lemma_product_within(a.x, b.y, ma, mb);
    lemma_product_within(a.y, b.x, ma, mb);
}

/// The scalar product does not depend on the order of its arguments.
pub proof fn lemma_dot_commutes(a: Vec3, b: Vec3)
    ensures
        a.dot(b) == b.dot(a),
{
    assert(a.x * b.x == b.x * a.x) by (nonlinear_arith);
    assert(a.y * b.y == b.y * a.y) by (nonlinear_arith);
    assert(a.z * b.z == b.z * a.z) by (nonlinear_arith);
}

/// The scalar product distributes over a sum.
pub proof fn lemma_dot_plus(a: Vec3, b: Vec3, w: Vec3)
    ensures
        a.plus(b).dot(w) == a.dot(w) + b.dot(w),
{
    assert((a.x + b.x) * w.x == a.x * w.x + b.x * w.x) by (nonlinear_arith);
    assert((a.y + b.y) * w.y == a.y * w.y + b.y * w.y) by (nonlinear_arith);
    assert((a.z + b.z) * w.z == a.z * w.z + b.z * w.z) by (nonlinear_arith);
}

/// The scalar product distributes over a difference.
pub proof fn lemma_dot_minus(a: Vec3, b: Vec3, w: Vec3)
    ensures
        a.minus(b).dot(w) == a.dot(w) - b.dot(w),
{
    assert((a.x - b.x) * w.x == a.x * w.x - b.x * w.x) by (nonlinear_arith);
    assert((a.y - b.y) * w.y == a.y * w.y - b.y * w.y) by (nonlinear_arith);
    assert((a.z - b.z) * w.z == a.z * w.z - b.z * w.z) by (nonlinear_arith);
}

/// A factor moves out of the scalar product.
pub proof fn lemma_dot_scaled(a: Vec3, k: int, w: Vec3)
    ensures
        a.scaled(k).dot(w) == k * a.dot(w),
{
    assert((k * a.x) * w.x == k * (a.x * w.x)) by (nonlinear_arith);
    assert((k * a.y) * w.y == k * (a.y * w.y)) by (nonlinear_arith);
    assert((k * a.z) * w.z == k * (a.z * w.z)) by (nonlinear_arith);
    assert(k * (a.x * w.x + a.y * w.y + a.z * w.z) == k * (a.x * w.x) + k * (a.y * w.y) + k * (
    a.z * w.z)) by (nonlinear_arith);
}

/// The three monomials of a determinant's expansion that carry a plus sign,
/// and the three that carry a minus sign.
pub open spec fn triple(a: Vec3, b: Vec3, c: Vec3) -> int {
    a.x * b.y * c.z + a.y * b.z * c.x + a.z * b.x * c.y - a.x * b.z * c.y - a.y * b.x * c.z - a.z
        * b.y * c.x
}

/// The scalar triple product is the determinant of its three arguments.
pub proof fn lemma_triple_expands(a: Vec3, b: Vec3, c: Vec3)
    ensures
        a.dot(b.cross(c)) == triple(a, b, c),
{
    assert(a.x * (b.y * c.z - b.z * c.y) == a.x * b.y * c.z - a.x * b.z * c.y)
        by (nonlinear_arith);
    assert(a.y * (b.z * c.x - b.x * c.z) == a.y * b.z * c.x - a.y * b.x * c.z)
        by (nonlinear_arith);
    assert(a.z * (b.x * c.y - b.y * c.x) == a.z * b.x * c.y - a.z * b.y * c.x)
        by (nonlinear_arith);
}

/// The scalar triple product keeps its value when its arguments move round in
/// a circle.
pub proof fn lemma_triple_cyclic(a: Vec3, b: Vec3, c: Vec3)
    ensures
        a.dot(b.cross(c)) == b.dot(c.cross(a)),
        a.dot(b.cross(c)) == c.dot(a.cross(b)),
{
    lemma_triple_expands(a, b, c);
    lemma_triple_expands(b, c, a);
    lemma_triple_expands(c, a, b);
    assert(a.x * b.y * c.z == b.y * c.z * a.x && a.x * b.y * c.z == c.z * a.x * b.y)
        by (nonlinear_arith);
    assert(a.y * b.z * c.x == b.z * c.x * a.y && a.y * b.z * c.x == c.x * a.y * b.z)
        by (nonlinear_arith);
    assert(a.z * b.x * c.y == b.x * c.y * a.z && a.z * b.x * c.y == c.y * a.z * b.x)
        by (nonlinear_arith);
    assert(a.x * b.z * c.y == b.z * c.y * a.x && a.x * b.z * c.y == c.y * a.x * b.z)
        by (nonlinear_arith);
    assert(a.y * b.x * c.z == b.x * c.z * a.y && a.y * b.x * c.z == c.z * a.y * b.x)
        by (nonlinear_arith);
    assert(a.z * b.y * c.x == b.y * c.x * a.z && a.z * b.y * c.x == c.x * a.z * b.y)
        by (nonlinear_arith);
}

/// The scalar triple product turns its sign when two arguments change places.
pub proof fn lemma_triple_swaps(a: Vec3, b: Vec3, c: Vec3)
    ensures
        a.dot(b.cross(c)) == -a.dot(c.cross(b)),
{
    lemma_triple_expands(a, b, c);
    lemma_triple_expands(a, c, b);
    assert(a.x * b.y * c.z == a.x * c.z * b.y) by (nonlinear_arith);
    assert(a.y * b.z * c.x == a.y * c.x * b.z) by (nonlinear_arith);
    assert(a.z * b.x * c.y == a.z * c.y * b.x) by (nonlinear_arith);
    assert(a.x * b.z * c.y == a.x * c.y * b.z) by (nonlinear_arith);
    assert(a.y * b.x * c.z == a.y * c.z * b.x) by (nonlinear_arith);
    assert(a.z * b.y * c.x == a.z * c.x * b.y) by (nonlinear_arith);
}

/// A vector product stands at a right angle to both of its arguments.
pub proof fn lemma_cross_orthogonal(a: Vec3, b: Vec3)
    ensures
        a.dot(a.cross(b)) == 0,
        b.dot(a.cross(b)) == 0,
{
    lemma_triple_expands(a, a, b);
    lemma_triple_expands(b, a, b);
    assert(a.x * a.y * b.z == a.y * a.x * b.z) by (nonlinear_arith);
    assert(a.y * a.z * b.x == a.z * a.y * b.x) by (nonlinear_arith);
    assert(a.z * a.x * b.y == a.x * a.z * b.y) by (nonlinear_arith);
    assert(b.x * a.y * b.z == b.z * a.y * b.x) by (nonlinear_arith);
    assert(b.y * a.z * b.x == b.x * a.z * b.y) by (nonlinear_arith);
    assert(b.z * a.x * b.y == b.y * a.x * b.z) by (nonlinear_arith);
}

/// One component of the expansion of a vector product with a vector product.
proof fn lemma_cross_cross_component(
    ax: int,
    ay: int,
    az: int,
    bx: int,
    by: int,
    bz: int,
    cx: int,
    cy: int,
    cz: int,
)
    ensures
        ay * (bx * cy - by * cx) - az * (bz * cx - bx * cz) == (ax * cx + ay * cy + az * cz) * bx
            - (ax * bx + ay * by + az * bz) * cx,
{
    assert(ay * (bx * cy - by * cx) == ay * bx * cy - ay * by * cx) by (nonlinear_arith);
    assert(az * (bz * cx - bx * cz) == az * bz * cx - az * bx * cz) by (nonlinear_arith);
    assert((ax * cx + ay * cy + az * cz) * bx == ax * cx * bx + ay * cy * bx + az * cz * bx)
        by (nonlinear_arith);
    assert((ax * bx + ay * by + az * bz) * cx == ax * bx * cx + ay * by * cx + az * bz * cx)
        by (nonlinear_arith);
    assert(ay * bx * cy == ay * cy * bx) by (nonlinear_arith);
    assert(az * bx * cz == az * cz * bx) by (nonlinear_arith);
    assert(ax * cx * bx == ax * bx * cx) by (nonlinear_arith);
}

/// The vector product with a vector product: `a x (b x c) == (a . c) b - (a . b) c`.
pub proof fn lemma_cross_cross(a: Vec3, b: Vec3, c: Vec3)
    ensures
        a.cross(b.cross(c)) == b.scaled(a.dot(c)).minus(c.scaled(a.dot(b))),
{
    lemma_cross_cross_component(a.x, a.y, a.z, b.x, b.y, b.z, c.x, c.y, c.z);
    lemma_cross_cross_component(a.y, a.z, a.x, b.y, b.z, b.x, c.y, c.z, c.x);
    lemma_cross_cross_component(a.z, a.x, a.y, b.z, b.x, b.y, c.z, c.x, c.y);
    assert(a.dot(c) * b.x == (a.x * c.x + a.y * c.y + a.z * c.z) * b.x);
    assert(a.dot(c) * b.y == (a.y * c.y + a.z * c.z + a.x * c.x) * b.y);
    assert(a.dot(c) * b.z == (a.z * c.z + a.x * c.x + a.y * c.y) * b.z);
    assert(a.dot(b) * c.x == (a.x * b.x + a.y * b.y + a.z * b.z) * c.x);
    assert(a.dot(b) * c.y == (a.y * b.y + a.z * b.z + a.x * b.x) * c.y);
    assert(a.dot(b) * c.z == (a.z * b.z + a.x * b.x + a.y * b.y) * c.z);
}

/// The vector product turns round when its arguments change places.
pub proof fn lemma_cross_anticommutes(a: Vec3, b: Vec3)
    ensures
        a.cross(b) == b.cross(a).scaled(-1),
{
    assert(a.y * b.z == b.z * a.y && a.z * b.y == b.y * a.z) by (nonlinear_arith);
    assert(a.z * b.x == b.x * a.z && a.x * b.z == b.z * a.x) by (nonlinear_arith);
    assert(a.x * b.y == b.y * a.x && a.y * b.x == b.x * a.y) by (nonlinear_arith);
}

/// Cramer's rule for three unknowns, free of division. With the numerators
/// `u = s . (d x e2)`, `v = d . (s x e1)`, `t = e2 . (s x e1)` and the
/// determinant `n = e1 . (d x e2)`: `n s == u e1 + v e2 - t d`.
pub proof fn lemma_cramer(s: Vec3, d: Vec3, e1: Vec3, e2: Vec3)
    ensures
        s.scaled(e1.dot(d.cross(e2))) == e1.scaled(s.dot(d.cross(e2))).plus(
            e2.scaled(d.dot(s.cross(e1))),
        ).minus(d.scaled(e2.dot(s.cross(e1)))),
{
    let p = d.cross(e2);
    let q = s.cross(e1);
    lemma_cross_cross(p, s, e1);
    lemma_cross_cross(q, d, e2);
    lemma_cross_anticommutes(p, q);
    lemma_dot_commutes(p, e1);
    lemma_dot_commutes(p, s);
    lemma_dot_commutes(q, e2);
    lemma_dot_commutes(q, d);
}

} // verus!
