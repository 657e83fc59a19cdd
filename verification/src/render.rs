//! Shading a pixel and rendering a frame.

use vstd::prelude::*;
use vstd::arithmetic::div_mod::lemma_fundamental_div_mod_converse;
use crate::camera::{Camera, MAX_PIXELS};
use crate::color::{black, black_spec, hit_color, hit_color_spec, Color};
use crate::frame::{rgba8, FrameBuffer, FrameView};
use crate::geometry::Ray;
use crate::scene::{lemma_scene_moved, scene_moved, Scene};
use crate::vector::Vec3;

verus! {

/// Why a frame was not rendered.
#[derive(Clone, Copy, Debug, PartialEq, Eq, Structural)]
pub enum RenderError {
    /// The width or the height is zero.
    InvalidDimensions,
    /// The raster has more than `MAX_PIXELS` pixels.
    RasterTooLarge,
    /// The camera's field of view does not lie strictly between 0 and 180 degrees.
    InvalidFieldOfView,
}

/// The colour of the pixel in column `x` and row `y` of a `w` by `h` raster:
/// the hit colour when the pixel's ray meets a triangle of the scene, black
/// when it meets none.
pub open spec fn pixel_color(camera: Camera, scene: Scene, x: int, y: int, w: int, h: int) -> Color {
    if scene.hit_by(camera.pixel_ray(x, y, w, h)) {
        hit_color_spec(x, y, w, h)
    } else {
        black_spec()
    }
}

/// The cells of the frame that a camera sees of a scene, row by row.
pub open spec fn image(camera: Camera, scene: Scene, w: int, h: int) -> Seq<Color> {
    Seq::new((w * h) as nat, |k: int| pixel_color(camera, scene, k % w, k / w, w, h))
}

/// The pixel in column `x` and row `y` has the cell `y * w + x` of the frame.
pub proof fn lemma_image_at(camera: Camera, scene: Scene, x: int, y: int, w: int, h: int)
    requires
        0 <= x < w,
        0 <= y < h,
    ensures
        0 <= y * w + x < image(camera, scene, w, h).len(),
        image(camera, scene, w, h)[y * w + x] == pixel_color(camera, scene, x, y, w, h),
{
    assert(0 <= y * w && y * w + w <= w * h) by (nonlinear_arith)
        requires
            0 < w,
            0 <= y < h,
    ;
    lemma_fundamental_div_mod_converse(y * w + x, w, y, x);
}

/// What `render` returns for each input: the first of the three errors that
/// applies, else the frame.
pub open spec fn rendering(camera: Camera, scene: Scene, w: int, h: int) -> Result<
    FrameView,
    RenderError,
> {
    if w <= 0 || h <= 0 {
        Err(RenderError::InvalidDimensions)
    } else if w * h > MAX_PIXELS {
        Err(RenderError::RasterTooLarge)
    } else if !camera.fov_valid() {
        Err(RenderError::InvalidFieldOfView)
    } else {
        Ok(FrameView { width: w as nat, height: h as nat, cells: image(camera, scene, w, h) })
    }
}

/// What a result of `render` holds.
pub open spec fn render_view(r: Result<FrameBuffer, RenderError>) -> Result<FrameView, RenderError> {
    match r {
        Ok(fb) => Ok(fb@),
        Err(e) => Err(e),
    }
}

/// Rendering is a function of its inputs: two results for one camera, one
/// scene and one raster are the same error, or frames of the same size that
/// agree in every cell and in every byte.
pub proof fn lemma_render_deterministic(
    camera: Camera,
    scene: Scene,
    width: u32,
    height: u32,
    first: Result<FrameBuffer, RenderError>,
    second: Result<FrameBuffer, RenderError>,
)
    requires
        render_view(first) == rendering(camera, scene, width as int, height as int),
        render_view(second) == rendering(camera, scene, width as int, height as int),
    ensures
        render_view(first) == render_view(second),
        first is Ok ==> second is Ok && rgba8(first->Ok_0@.cells) == rgba8(second->Ok_0@.cells),
        first is Err ==> second is Err && first->Err_0 == second->Err_0,
{
}

/// A scene without meshes renders black: every cell of the frame is opaque
/// black.
pub proof fn lemma_empty_scene_black(camera: Camera, scene: Scene, w: int, h: int)
    requires
        scene.meshes@.len() == 0,
    ensures
        forall|x: int, y: int| #[trigger] pixel_color(camera, scene, x, y, w, h) == black_spec(),
        forall|k: int|
            0 <= k < image(camera, scene, w, h).len() ==> #[trigger] image(camera, scene, w, h)[k]
                == black_spec(),
{
    assert forall|x: int, y: int| #[trigger]
        pixel_color(camera, scene, x, y, w, h) == black_spec() by {
        let ray = camera.pixel_ray(x, y, w, h);
        assert(!scene.hit_by(ray));
    }
}

/// The camera `b` is the camera `a` moved by `t`: the same field of view, with
/// `t` added to the origin.
pub open spec fn camera_moved(a: Camera, b: Camera, t: Vec3) -> bool {
    b.origin@ == a.origin@.plus(t) && b.fov == a.fov
}

/// Moving the whole world leaves the picture as it is: where every mesh and
/// the camera are moved by one vector, the same frame is rendered, or the same
/// error returned.
pub proof fn lemma_translation_invariance(
    camera: Camera,
    scene: Scene,
    moved_camera: Camera,
    moved_scene: Scene,
    t: Vec3,
    w: int,
    h: int,
)
    requires
        camera_moved(camera, moved_camera, t),
        scene_moved(scene, moved_scene, t),
    ensures
        forall|x: int, y: int| #[trigger]
            pixel_color(moved_camera, moved_scene, x, y, w, h) == pixel_color(
                camera,
                scene,
                x,
                y,
                w,
                h,
            ),
        rendering(moved_camera, moved_scene, w, h) == rendering(camera, scene, w, h),
{
    assert forall|x: int, y: int| #[trigger]
        pixel_color(moved_camera, moved_scene, x, y, w, h) == pixel_color(
            camera,
            scene,
            x,
            y,
            w,
            h,
        ) by {
        let ray = camera.pixel_ray(x, y, w, h);
        assert(moved_camera.pixel_ray(x, y, w, h) == ray.shifted(t));
        lemma_scene_moved(scene, moved_scene, t, ray);
    }
    assert(image(moved_camera, moved_scene, w, h) =~= image(camera, scene, w, h));
}

/// Moving the world one way is moving the camera the other way: the scene with
/// every mesh moved by `t`, seen from where the camera stands, gives the frame
/// that the scene as it was gives when seen from the camera moved by `-t`.
pub proof fn lemma_moving_world_is_moving_camera(
    camera: Camera,
    scene: Scene,
    camera_back: Camera,
    scene_forth: Scene,
    t: Vec3,
    w: int,
    h: int,
)
    requires
        camera_moved(camera_back, camera, t),
        scene_moved(scene, scene_forth, t),
    ensures
        rendering(camera, scene_forth, w, h) == rendering(camera_back, scene, w, h),
{
    lemma_translation_invariance(camera_back, scene, camera, scene_forth, t, w, h);
}

/// The colour for a ray that belongs to the pixel in column `x` and row `y`:
/// the hit colour of the pixel when the ray meets a triangle of the scene,
/// black when it meets none. The first triangle met ends the search; since the
/// hit colour depends on the pixel alone, which triangle that is does not show.
pub fn shade(ray: &Ray, scene: &Scene, x: u32, y: u32, width: u32, height: u32) -> (c: Color)
    requires
        x < width,
        y < height,
    ensures
        c == (if scene.hit_by(ray@) {
            hit_color_spec(x as int, y as int, width as int, height as int)
        } else {
            black_spec()
        }),
{
    match scene.first_hit(ray) {
        Some(_) => hit_color(x, y, width, height),
        None => black(),
    }
}

/// The colour of the pixel in column `x` and row `y`.
pub fn render_pixel(
    x: u32,
    y: u32,
    width: u32,
    height: u32,
    camera: &Camera,
    scene: &Scene,
) -> (c: Color)
    requires
        x < width,
        y < height,
        width * height <= MAX_PIXELS,
    ensures
        c == pixel_color(*camera, *scene, x as int, y as int, width as int, height as int),
{
    let ray = camera.ray_for(x, y, width, height);
    shade(&ray, scene, x, y, width, height)
}

/// The cells of the row `y` of the frame, the column `x` before the column
/// `x + 1`.
pub open spec fn image_row(camera: Camera, scene: Scene, y: int, w: int, h: int) -> Seq<Color> {
    Seq::new(w as nat, |x: int| pixel_color(camera, scene, x, y, w, h))
}

/// Renders one row of a frame. The rows of a frame do not depend on one
/// another, so a caller may render them in any order, or stop between two.
pub fn render_row(camera: &Camera, scene: &Scene, width: u32, height: u32, y: u32) -> (row: Vec<
    Color,
>)
    requires
        y < height,
        width * height <= MAX_PIXELS,
    ensures
        row@ == image_row(*camera, *scene, y as int, width as int, height as int),
{
    let mut row: Vec<Color> = Vec::new();
    let mut x: u32 = 0;
    while x < width
        invariant
            x <= width,
            y < height,
            width * height <= MAX_PIXELS,
            row@.len() == x,
            forall|k: int|
                0 <= k < x ==> #[trigger] row@[k] == pixel_color(
                    *camera,
                    *scene,
                    k,
                    y as int,
                    width as int,
                    height as int,
                ),
        decreases width - x,
    {
        row.push(render_pixel(x, y, width, height, camera, scene));
        x = x + 1;
    }
    assert(row@ =~= image_row(*camera, *scene, y as int, width as int, height as int));
    row
}

/// Renders the scene as the camera sees it into a frame of `width` by
/// `height` pixels. The dimensions are checked first, then the camera; nothing
/// is allocated before both have passed.
pub fn render(camera: &Camera, scene: &Scene, width: u32, height: u32) -> (r: Result<
    FrameBuffer,
    RenderError,
>)
    ensures
        render_view(r) == rendering(*camera, *scene, width as int, height as int),
{
    if width == 0 || height == 0 {
        return Err(RenderError::InvalidDimensions);
    }
    assert(width * height <= 0xffff_ffff * 0xffff_ffff) by (nonlinear_arith)
        requires
            width <= 0xffff_ffff,
            height <= 0xffff_ffff,
    ;
    if width as u64 * height as u64 > MAX_PIXELS as u64 {
        return Err(RenderError::RasterTooLarge);
    }
    if !camera.has_valid_fov() {
        return Err(RenderError::InvalidFieldOfView);
    }
    let mut pixels: Vec<Color> = Vec::new();
    let mut y: u32 = 0;
    while y < height
        invariant
            0 < width,
            y <= height,
            width * height <= MAX_PIXELS,
            pixels@.len() == y * width,
            forall|k: int|
                0 <= k < pixels@.len() ==> #[trigger] pixels@[k] == pixel_color(
                    *camera,
                    *scene,
                    k % (width as int),
                    k / (width as int),
                    width as int,
                    height as int,
                ),
        decreases height - y,
    {
        let mut row = render_row(camera, scene, width, height, y);
        let ghost done = pixels@;
        let ghost fresh = row@;
        pixels.append(&mut row);
        proof {
            assert((y + 1) * width == y * width + width) by (nonlinear_arith);
            assert forall|k: int| 0 <= k < pixels@.len() implies #[trigger] pixels@[k]
                == pixel_color(
                *camera,
                *scene,
                k % (width as int),
                k / (width as int),
                width as int,
                height as int,
            ) by {
                if k >= done.len() {
                    let x = k - y * width;
                    lemma_fundamental_div_mod_converse(k, width as int, y as int, x);
                    assert(pixels@[k] == fresh[x]);
                }
            }
        }
        y = y + 1;
    }
    assert(pixels@.len() == height * width);
    assert(height * width == width * height) by (nonlinear_arith);
    assert(pixels@ =~= image(*camera, *scene, width as int, height as int));
    Ok(FrameBuffer::assemble(width, height, pixels))
}

} // verus!
