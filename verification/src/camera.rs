//! The camera, and the ray that it sends through a pixel.

use vstd::prelude::*;
use crate::geometry::{Point3, Ray, Rotation, Vector3};
use crate::intersect::Ray3;
use crate::vector::Vec3;

verus! {

/// The largest number of pixels in a raster.
pub const MAX_PIXELS: u32 = 0x7fff_ffff;

/// A camera. The field of view is in whole degrees and must lie strictly
/// between 0 and 180. The orientation, the field of view and the projection
/// flag are stored only: every ray leaves the origin, and its direction
/// depends on the pixel alone.
#[derive(Clone, Copy, Debug, PartialEq, Eq, Structural)]
pub struct Camera {
    pub origin: Point3,
    pub rotation: Rotation,
    pub fov: u8,
    pub perspective: bool,
}

/// The direction of the ray through the pixel in column `x` and row `y` of a
/// `w` by `h` raster. With `u = x / w` and `v = y / h` it is `(v, u, 1)`
/// stretched by `w * h`: the row steers the first component and the column the
/// second.
pub open spec fn pixel_direction(x: int, y: int, w: int, h: int) -> Vec3 {
    Vec3 { x: y * w, y: x * h, z: w * h }
}

/// The components of a pixel's direction are bounded by the number of pixels.
pub proof fn lemma_pixel_direction_within(x: int, y: int, w: int, h: int)
    requires
        0 <= x < w,
        0 <= y < h,
    ensures
        0 <= y * w <= w * h,
        0 <= x * h <= w * h,
{
    assert(0 <= y * w <= w * h) by (nonlinear_arith)
        requires
            0 <= y < h,
            0 < w,
    ;
    assert(0 <= x * h <= w * h) by (nonlinear_arith)
        requires
            0 <= x < w,
            0 < h,
    ;
}

impl Camera {
    /// The field of view lies strictly between 0 and 180 degrees.
    pub open spec fn fov_valid(&self) -> bool {
        0 < self.fov < 180
    }

    /// Whether the field of view lies strictly between 0 and 180 degrees.
    pub fn has_valid_fov(&self) -> (ok: bool)
        ensures
            ok == self.fov_valid(),
    {
        0 < self.fov && self.fov < 180
    }

    /// The ray through the pixel in column `x` and row `y` of a `w` by `h` raster.
    pub open spec fn pixel_ray(&self, x: int, y: int, w: int, h: int) -> Ray3 {
        Ray3 { origin: self.origin@, direction: pixel_direction(x, y, w, h) }
    }

    /// The ray through the pixel in column `x` and row `y` of a raster of
    /// `width` by `height` pixels.
    pub fn ray_for(&self, x: u32, y: u32, width: u32, height: u32) -> (ray: Ray)
        requires
            x < width,
            y < height,
            width * height <= MAX_PIXELS,
        ensures
            ray@ == self.pixel_ray(x as int, y as int, width as int, height as int),
            ray.origin == self.origin,
    {
        proof {
            lemma_pixel_direction_within(x as int, y as int, width as int, height as int);
        }
        let dx: u32 = y * width;
        let dy: u32 = x * height;
        let dz: u32 = width * height;
        Ray { origin: self.origin, direction: Vector3 { x: dx as i32, y: dy as i32, z: dz as i32 } }
    }
}

} // verus!
