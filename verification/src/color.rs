//! Colours, and the colour that a pixel gets when its ray meets the scene.

use vstd::prelude::*;
use vstd::arithmetic::div_mod::lemma_fundamental_div_mod;

verus! {

/// An RGBA colour with eight bits per channel.
#[derive(Clone, Copy, Debug, PartialEq, Eq, Structural)]
pub struct Color {
    pub r: u8,
    pub g: u8,
    pub b: u8,
    pub a: u8,
}

/// Opaque black.
pub open spec fn black_spec() -> Color {
    Color { r: 0, g: 0, b: 0, a: 255 }
}

/// Opaque black, the colour of a pixel whose ray meets nothing.
#[verifier::when_used_as_spec(black_spec)]
pub fn black() -> (c: Color)
    ensures
        c == black_spec(),
{
    Color { r: 0, g: 0, b: 0, a: 255 }
}

/// The fraction `n / d` of the full channel range 0..=255, rounded to the
/// nearest level; a fraction exactly halfway between two levels goes up.
pub open spec fn nearest_level(n: int, d: int) -> int {
    (510 * n + d) / (2 * d)
}

/// The level is the integer nearest to `255 * n / d`.
pub proof fn lemma_nearest_level(n: int, d: int)
    requires
        0 <= n < d,
    ensures
        0 <= nearest_level(n, d) <= 255,
        2 * (d * nearest_level(n, d)) - d <= 510 * n < 2 * (d * nearest_level(n, d)) + d,
{
    let q = nearest_level(n, d);
    let num = 510 * n + d;
    let den = 2 * d;
    lemma_fundamental_div_mod(num, den);
    assert(num == den * q + num % den);
    assert(0 <= num % den < den);
    assert(den * q == 2 * (d * q)) by (nonlinear_arith)
        requires
            den == 2 * d,
    ;
    assert(0 <= q <= 255) by (nonlinear_arith)
        requires
            0 < d,
            2 * (d * q) <= 511 * d - 510,
            -d < 2 * (d * q),
    ;
}

/// Scales the fraction `n / d` to a channel level.
pub fn scale_channel(n: u32, d: u32) -> (c: u8)
    requires
        n < d,
    ensures
        c == nearest_level(n as int, d as int),
        2 * (d * c) - d <= 510 * n < 2 * (d * c) + d,
{
    proof {
        lemma_nearest_level(n as int, d as int);
    }
    let num: u64 = 510u64 * (n as u64) + (d as u64);
    let den: u64 = 2u64 * (d as u64);
    let q: u64 = num / den;
    q as u8
}

/// The colour of the pixel in column `x` and row `y` of a `w` by `h` raster
/// when its ray meets a triangle: red grows with the column, green with the row.
pub open spec fn hit_color_spec(x: int, y: int, w: int, h: int) -> Color {
    Color {
        r: nearest_level(x, w) as u8,
        g: nearest_level(y, h) as u8,
        b: 0,
        a: 255,
    }
}

/// The colour of a pixel whose ray meets a triangle.
pub fn hit_color(x: u32, y: u32, width: u32, height: u32) -> (c: Color)
    requires
        x < width,
        y < height,
    ensures
        c == hit_color_spec(x as int, y as int, width as int, height as int),
        c.r == nearest_level(x as int, width as int),
        c.g == nearest_level(y as int, height as int),
        c.b == 0,
        c.a == 255,
{
    Color { r: scale_channel(x, width), g: scale_channel(y, height), b: 0, a: 255 }
}

} // verus!
