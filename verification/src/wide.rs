//! Comparing quotients whose cross products do not fit a machine word.

use vstd::prelude::*;

verus! {

/// Two to the power of 64.
pub open spec fn pow64() -> int {
    0x1_0000_0000_0000_0000
}

/// Two to the power of 128.
pub open spec fn pow128() -> int {
    0x1_0000_0000_0000_0000_0000_0000_0000_0000int
}

/// A product of two numbers below `2^64` is at most `(2^64 - 1)^2`.
proof fn lemma_limb_product(a: int, b: int)
    requires
        0 <= a < pow64(),
        0 <= b < pow64(),
    ensures
        0 <= a * b <= 0xffff_ffff_ffff_fffe_0000_0000_0000_0001,
{
    assert(0 <= a * b <= 0xffff_ffff_ffff_ffff * 0xffff_ffff_ffff_ffff) by (nonlinear_arith)
        requires
            0 <= a <= 0xffff_ffff_ffff_ffff,
            0 <= b <= 0xffff_ffff_ffff_ffff,
    ;
}

/// A product written out by the halves of its factors.
proof fn lemma_split_product(a: int, a1: int, a0: int, b: int, b1: int, b0: int, k: int)
    requires
        a == a1 * k + a0,
        b == b1 * k + b0,
    ensures
        a * b == (a1 * b1) * (k * k) + (a0 * b1) * k + (a1 * b0) * k + a0 * b0,
{
    let x = a1 * k;
    let y = b1 * k;
    assert((x + a0) * (y + b0) == x * y + x * b0 + a0 * y + a0 * b0) by (nonlinear_arith);
    assert((a1 * k) * (b1 * k) == (a1 * b1) * (k * k)) by (nonlinear_arith);
    assert((a1 * k) * b0 == (a1 * b0) * k) by (nonlinear_arith);
    assert(a0 * (b1 * k) == (a0 * b1) * k) by (nonlinear_arith);
}

/// The product of two numbers in two words, the high one first.
pub fn mul_wide(a: u128, b: u128) -> (r: (u128, u128))
    ensures
        r.0 * pow128() + r.1 == a * b,
{
    let a0: u128 = a % 0x1_0000_0000_0000_0000;
    let a1: u128 = a / 0x1_0000_0000_0000_0000;
    let b0: u128 = b % 0x1_0000_0000_0000_0000;
    let b1: u128 = b / 0x1_0000_0000_0000_0000;
    proof {
        lemma_limb_product(a0 as int, b0 as int);
        lemma_limb_product(a0 as int, b1 as int);
        lemma_limb_product(a1 as int, b0 as int);
        lemma_limb_product(a1 as int, b1 as int);
        lemma_split_product(
            a as int,
            a1 as int,
            a0 as int,
            b as int,
            b1 as int,
            b0 as int,
            pow64(),
        );
    }
    let ll: u128 = a0 * b0;
    let lh: u128 = a0 * b1;
    let hl: u128 = a1 * b0;
    let hh: u128 = a1 * b1;
    let mid: u128 = lh + ll / 0x1_0000_0000_0000_0000;
    let mid2: u128 = hl + mid % 0x1_0000_0000_0000_0000;
    let lo: u128 = (mid2 % 0x1_0000_0000_0000_0000) * 0x1_0000_0000_0000_0000 + ll
        % 0x1_0000_0000_0000_0000;
    let hi: u128 = hh + mid / 0x1_0000_0000_0000_0000 + mid2 / 0x1_0000_0000_0000_0000;
    (hi, lo)
}

/// Whether `a * b < c * d`.
pub fn product_less(a: u128, b: u128, c: u128, d: u128) -> (less: bool)
    ensures
        less == (a * b < c * d),
{
    let (h1, l1) = mul_wide(a, b);
    let (h2, l2) = mul_wide(c, d);
    h1 < h2 || (h1 == h2 && l1 < l2)
}

} // verus!
