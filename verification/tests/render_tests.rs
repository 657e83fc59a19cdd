use raytracer::{
    render, render_pixel, render_row, shade, Camera, Color, FrameBuffer, Mesh, Point3, Ray,
    RenderError, Rotation, Scene, Transform, Triangle, Vector3, MAX_PIXELS,
};

fn no_rotation() -> Rotation {
    Rotation { pitch: 0, yaw: 0, roll: 0 }
}

fn camera_at(x: i32, y: i32, z: i32) -> Camera {
    Camera { origin: Point3 { x, y, z }, rotation: no_rotation(), fov: 90, perspective: true }
}

fn plane_at(x: i32, y: i32, z: i32) -> Mesh {
    Mesh {
        tris: vec![Triangle {
            v1: Point3 { x: 0, y: 0, z: 0 },
            v2: Point3 { x: 0, y: 1, z: 0 },
            v3: Point3 { x: 1, y: 1, z: 0 },
        }],
        transform: Transform { rotation: no_rotation(), translation: Point3 { x, y, z } },
    }
}

fn plane_scene() -> Scene {
    Scene { meshes: vec![plane_at(0, 0, 0)] }
}

const BLACK: Color = Color { r: 0, g: 0, b: 0, a: 255 };

fn level(n: u32, d: u32) -> u8 {
    ((510 * n as u64 + d as u64) / (2 * d as u64)) as u8
}

/// What the camera at (0, 0, -1) sees of the plane scene: the ray through the
/// pixel crosses z == 0 at (v, u, 0), which lies on the triangle where v <= u.
fn expected_plane_pixel(x: u32, y: u32, w: u32, h: u32) -> Color {
    if (y as u64) * (w as u64) <= (x as u64) * (h as u64) {
        Color { r: level(x, w), g: level(y, h), b: 0, a: 255 }
    } else {
        BLACK
    }
}

fn assert_plane_frame(frame: &FrameBuffer, w: u32, h: u32) {
    assert_eq!(frame.width(), w);
    assert_eq!(frame.height(), h);
    assert_eq!(frame.pixels().len(), (w * h) as usize);
    for y in 0..h {
        for x in 0..w {
            assert_eq!(frame.get(x, y), Some(expected_plane_pixel(x, y, w, h)));
        }
    }
}

#[test]
fn empty_scene_renders_black() {
    let scene = Scene { meshes: vec![] };
    let frame = render(&camera_at(0, 0, -1), &scene, 5, 3).unwrap();
    assert_eq!(frame.width(), 5);
    assert_eq!(frame.height(), 3);
    assert_eq!(frame.pixels().len(), 15);
    for y in 0..3 {
        for x in 0..5 {
            assert_eq!(frame.get(x, y), Some(BLACK));
        }
    }
    assert_eq!(frame.to_rgba8(), [0u8, 0, 0, 255].repeat(15));
}

#[test]
fn scene_of_empty_meshes_renders_black() {
    let hollow = Mesh {
        tris: vec![],
        transform: Transform { rotation: no_rotation(), translation: Point3 { x: 0, y: 0, z: 0 } },
    };
    let scene = Scene { meshes: vec![hollow.clone(), hollow] };
    let frame = render(&camera_at(0, 0, -1), &scene, 4, 4).unwrap();
    assert!(frame.pixels().iter().all(|c| *c == BLACK));
}

#[test]
fn single_triangle_hit_coordinates() {
    let frame = render(&camera_at(0, 0, -1), &plane_scene(), 4, 4).unwrap();
    assert_eq!(frame.get(2, 1), Some(Color { r: 128, g: 64, b: 0, a: 255 }));
    assert_eq!(frame.get(3, 3), Some(Color { r: 191, g: 191, b: 0, a: 255 }));
    assert_eq!(frame.get(3, 0), Some(Color { r: 191, g: 0, b: 0, a: 255 }));
    assert_eq!(frame.get(1, 2), Some(BLACK));
    assert_eq!(frame.get(0, 3), Some(BLACK));
    assert_plane_frame(&frame, 4, 4);
}

#[test]
fn single_triangle_on_a_wide_raster() {
    let frame = render(&camera_at(0, 0, -1), &plane_scene(), 160, 90).unwrap();
    assert_plane_frame(&frame, 160, 90);
    assert_eq!(frame.get(80, 45), Some(Color { r: 128, g: 128, b: 0, a: 255 }));
    assert_eq!(frame.get(80, 46), Some(BLACK));
}

#[test]
fn single_triangle_on_the_full_raster() {
    let (w, h) = (1280, 720);
    let camera = camera_at(0, 0, -1);
    let scene = plane_scene();
    for (x, y) in [(0, 0), (1279, 0), (1279, 719), (0, 719), (640, 360), (640, 361), (16, 9), (15, 9)] {
        assert_eq!(render_pixel(x, y, w, h, &camera, &scene), expected_plane_pixel(x, y, w, h));
    }
    assert_eq!(render_pixel(1279, 719, w, h, &camera, &scene), Color { r: 255, g: 255, b: 0, a: 255 });
    assert_eq!(render_pixel(15, 9, w, h, &camera, &scene), BLACK);
}

#[test]
fn render_is_deterministic() {
    let camera = camera_at(0, 0, -1);
    let scene = plane_scene();
    let first = render(&camera, &scene, 37, 23).unwrap();
    let second = render(&camera, &scene, 37, 23).unwrap();
    assert_eq!(first, second);
    assert_eq!(first.to_rgba8(), second.to_rgba8());
    assert_eq!(render(&camera, &scene, 0, 23), render(&camera, &scene, 0, 23));
}

#[test]
fn moving_the_whole_world_changes_nothing() {
    let here = render(&camera_at(0, 0, -1), &plane_scene(), 32, 32).unwrap();
    for t in [(5, -7, 3), (-1000, 0, 0), (0, 0, 1), (123456, 654321, -777777)] {
        let scene = Scene { meshes: vec![plane_at(t.0, t.1, t.2)] };
        let there = render(&camera_at(t.0, t.1, t.2 - 1), &scene, 32, 32).unwrap();
        assert_eq!(there, here);
    }
}

#[test]
fn moving_the_world_to_the_edge_of_the_lattice_changes_nothing() {
    let here = render(&camera_at(0, 0, -1), &plane_scene(), 16, 16).unwrap();
    let scene = Scene { meshes: vec![plane_at(i32::MAX - 1, i32::MIN, i32::MAX)] };
    let there = render(&camera_at(i32::MAX - 1, i32::MIN, i32::MAX - 1), &scene, 16, 16).unwrap();
    assert_eq!(there, here);
}

#[test]
fn moving_the_world_forth_is_moving_the_camera_back() {
    for t in [(1, 0, 0), (0, -1, 0), (0, 0, 3), (2, 1, -1), (-40, 25, 7)] {
        let forth = Scene { meshes: vec![plane_at(t.0, t.1, t.2)] };
        let world_moved = render(&camera_at(0, 0, -1), &forth, 24, 24).unwrap();
        let camera_moved = render(&camera_at(-t.0, -t.1, -1 - t.2), &plane_scene(), 24, 24).unwrap();
        assert_eq!(world_moved, camera_moved);
    }
}

#[test]
fn moving_only_the_mesh_changes_the_picture() {
    let here = render(&camera_at(0, 0, -1), &plane_scene(), 8, 8).unwrap();
    let moved = Scene { meshes: vec![plane_at(1, 0, 0)] };
    let there = render(&camera_at(0, 0, -1), &moved, 8, 8).unwrap();
    assert_ne!(there, here);
    assert!(there.pixels().iter().all(|c| *c == BLACK));
}

#[test]
fn overlapping_triangles_show_one_colour() {
    // The colour of a hit depends on the pixel alone, so a second triangle
    // before or behind the first changes no cell.
    let one = render(&camera_at(0, 0, -1), &plane_scene(), 16, 16).unwrap();
    let two = Scene { meshes: vec![plane_at(0, 0, 0), plane_at(0, 0, 0)] };
    assert_eq!(render(&camera_at(0, 0, -1), &two, 16, 16).unwrap(), one);
}

#[test]
fn orientation_field_of_view_and_projection_do_not_show() {
    let plain = render(&camera_at(0, 0, -1), &plane_scene(), 16, 16).unwrap();
    let mut camera = camera_at(0, 0, -1);
    camera.rotation = Rotation { pitch: 30, yaw: -45, roll: 180 };
    camera.fov = 1;
    camera.perspective = false;
    assert_eq!(render(&camera, &plane_scene(), 16, 16).unwrap(), plain);
    camera.fov = 179;
    assert_eq!(render(&camera, &plane_scene(), 16, 16).unwrap(), plain);
}

#[test]
fn zero_dimensions_are_rejected() {
    let camera = camera_at(0, 0, -1);
    assert_eq!(render(&camera, &plane_scene(), 0, 10), Err(RenderError::InvalidDimensions));
    assert_eq!(render(&camera, &plane_scene(), 10, 0), Err(RenderError::InvalidDimensions));
    assert_eq!(render(&camera, &plane_scene(), 0, 0), Err(RenderError::InvalidDimensions));
    assert_eq!(render(&camera, &plane_scene(), 0, u32::MAX), Err(RenderError::InvalidDimensions));
}

#[test]
fn oversized_rasters_are_rejected() {
    let camera = camera_at(0, 0, -1);
    let scene = Scene { meshes: vec![] };
    assert_eq!(MAX_PIXELS, 2_147_483_647);
    assert_eq!(render(&camera, &scene, 65536, 65536), Err(RenderError::RasterTooLarge));
    assert_eq!(render(&camera, &scene, u32::MAX, u32::MAX), Err(RenderError::RasterTooLarge));
    assert_eq!(render(&camera, &scene, 46341, 46341), Err(RenderError::RasterTooLarge));
    assert_eq!(render(&camera, &scene, 1 << 31, 1), Err(RenderError::RasterTooLarge));
    assert_eq!(render(&camera, &scene, 1, 1 << 31), Err(RenderError::RasterTooLarge));
}

#[test]
fn field_of_view_out_of_range_is_rejected() {
    let mut camera = camera_at(0, 0, -1);
    for fov in [0u8, 180, 181, 255] {
        camera.fov = fov;
        assert!(!camera.has_valid_fov());
        assert_eq!(render(&camera, &plane_scene(), 4, 4), Err(RenderError::InvalidFieldOfView));
    }
    for fov in [1u8, 90, 179] {
        camera.fov = fov;
        assert!(camera.has_valid_fov());
        assert!(render(&camera, &plane_scene(), 4, 4).is_ok());
    }
}

#[test]
fn dimensions_are_checked_before_the_camera() {
    let mut camera = camera_at(0, 0, -1);
    camera.fov = 0;
    assert_eq!(render(&camera, &plane_scene(), 0, 4), Err(RenderError::InvalidDimensions));
    assert_eq!(render(&camera, &plane_scene(), 65536, 65536), Err(RenderError::RasterTooLarge));
    assert_eq!(render(&camera, &plane_scene(), 4, 4), Err(RenderError::InvalidFieldOfView));
}

#[test]
fn ray_for_swaps_row_and_column() {
    let camera = camera_at(7, -8, 9);
    let ray = camera.ray_for(3, 5, 10, 20);
    assert_eq!(ray.origin, Point3 { x: 7, y: -8, z: 9 });
    assert_eq!(ray.direction, Vector3 { x: 50, y: 60, z: 200 });
    let corner = camera.ray_for(0, 0, 1280, 720);
    assert_eq!(corner.direction, Vector3 { x: 0, y: 0, z: 921_600 });
    let last = camera.ray_for(1279, 719, 1280, 720);
    assert_eq!(last.direction, Vector3 { x: 920_320, y: 920_880, z: 921_600 });
}

#[test]
fn ray_for_reaches_the_largest_raster() {
    let camera = camera_at(0, 0, 0);
    let ray = camera.ray_for(0, MAX_PIXELS - 1, 1, MAX_PIXELS);
    assert_eq!(ray.direction, Vector3 { x: i32::MAX - 1, y: 0, z: i32::MAX });
    let ray = camera.ray_for(46339, 46339, 46340, 46340);
    assert_eq!(ray.direction, Vector3 { x: 2_147_349_260, y: 2_147_349_260, z: 2_147_395_600 });
}

#[test]
fn shade_colours_a_hit_and_blackens_a_miss() {
    let scene = plane_scene();
    let hit = Ray { origin: Point3 { x: 0, y: 0, z: -1 }, direction: Vector3 { x: 1, y: 2, z: 4 } };
    let miss = Ray { origin: Point3 { x: 0, y: 0, z: -1 }, direction: Vector3 { x: 2, y: 1, z: 4 } };
    assert_eq!(shade(&hit, &scene, 2, 1, 4, 4), Color { r: 128, g: 64, b: 0, a: 255 });
    assert_eq!(shade(&miss, &scene, 2, 1, 4, 4), BLACK);
    assert_eq!(shade(&hit, &Scene { meshes: vec![] }, 2, 1, 4, 4), BLACK);
}

#[test]
fn rows_make_up_the_frame() {
    let camera = camera_at(0, 0, -1);
    let scene = plane_scene();
    let frame = render(&camera, &scene, 9, 7).unwrap();
    let mut cells = Vec::new();
    for y in 0..7 {
        let row = render_row(&camera, &scene, 9, 7, y);
        assert_eq!(row.len(), 9);
        for x in 0..9 {
            assert_eq!(row[x as usize], render_pixel(x, y, 9, 7, &camera, &scene));
        }
        cells.extend(row);
    }
    assert_eq!(&cells, frame.pixels());
}

#[test]
fn frame_is_stored_row_by_row() {
    let frame = render(&camera_at(0, 0, -1), &plane_scene(), 5, 3).unwrap();
    for y in 0..3u32 {
        for x in 0..5u32 {
            assert_eq!(frame.get(x, y), Some(frame.pixels()[(y * 5 + x) as usize]));
        }
    }
    assert_eq!(frame.get(5, 0), None);
    assert_eq!(frame.get(0, 3), None);
    assert_eq!(frame.get(u32::MAX, u32::MAX), None);
}

#[test]
fn frame_from_cells_wants_one_cell_for_each_pixel() {
    let red = Color { r: 255, g: 0, b: 0, a: 255 };
    let frame = FrameBuffer::from_cells(3, 2, vec![BLACK, red, BLACK, BLACK, BLACK, red]).unwrap();
    assert_eq!(frame.width(), 3);
    assert_eq!(frame.height(), 2);
    assert_eq!(frame.get(1, 0), Some(red));
    assert_eq!(frame.get(2, 1), Some(red));
    assert_eq!(frame.get(0, 1), Some(BLACK));
    assert_eq!(FrameBuffer::from_cells(3, 2, vec![BLACK; 5]), None);
    assert_eq!(FrameBuffer::from_cells(3, 2, vec![BLACK; 7]), None);
    assert_eq!(FrameBuffer::from_cells(0, 2, vec![BLACK]), None);
    assert!(FrameBuffer::from_cells(0, 7, vec![]).is_some());
    assert_eq!(FrameBuffer::from_cells(u32::MAX, u32::MAX, vec![BLACK]), None);
    let same = render(&camera_at(0, 0, -1), &plane_scene(), 4, 4).unwrap();
    assert_eq!(FrameBuffer::from_cells(4, 4, same.pixels().clone()), Some(same));
}

#[test]
fn frame_bytes_are_red_green_blue_alpha() {
    let frame = render(&camera_at(0, 0, -1), &plane_scene(), 2, 2).unwrap();
    // (0,0) hits at a corner and is black by its coordinates; (1,0) hits;
    // (0,1) misses; (1,1) hits.
    assert_eq!(
        frame.to_rgba8(),
        vec![0, 0, 0, 255, 128, 0, 0, 255, 0, 0, 0, 255, 128, 128, 0, 255]
    );
}
