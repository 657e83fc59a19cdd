use raytracer::{
    Hit, HitPolicy, Mesh, Point3, Ray, Rotation, Scene, SceneHit, Transform, Triangle, Vector3,
};

fn p(x: i32, y: i32, z: i32) -> Point3 {
    Point3 { x, y, z }
}

fn ray(o: (i32, i32, i32), d: (i32, i32, i32)) -> Ray {
    Ray { origin: p(o.0, o.1, o.2), direction: Vector3 { x: d.0, y: d.1, z: d.2 } }
}

fn placed(tris: Vec<Triangle>, at: (i32, i32, i32)) -> Mesh {
    Mesh {
        tris,
        transform: Transform {
            rotation: Rotation { pitch: 0, yaw: 0, roll: 0 },
            translation: p(at.0, at.1, at.2),
        },
    }
}

fn big_triangle() -> Triangle {
    Triangle { v1: p(0, 0, 0), v2: p(0, 4, 0), v3: p(4, 4, 0) }
}

fn far_away() -> Triangle {
    Triangle { v1: p(100, 100, 0), v2: p(100, 104, 0), v3: p(104, 104, 0) }
}

#[test]
fn transform_point_adds_the_translation() {
    let mesh = placed(vec![], (1, -2, 3));
    assert_eq!(mesh.transform_point(&p(10, 20, 30)), Some(p(11, 18, 33)));
    assert_eq!(mesh.transform_point(&p(0, 0, 0)), Some(p(1, -2, 3)));
    assert_eq!(mesh.transform_point(&p(i32::MAX - 1, i32::MIN + 2, 0)), Some(p(i32::MAX, i32::MIN, 3)));
}

#[test]
fn transform_point_is_none_off_the_lattice() {
    let mesh = placed(vec![], (1, -2, 3));
    assert_eq!(mesh.transform_point(&p(i32::MAX, 0, 0)), None);
    assert_eq!(mesh.transform_point(&p(0, i32::MIN + 1, 0)), None);
    assert_eq!(mesh.transform_point(&p(0, 0, i32::MAX - 2)), None);
}

#[test]
fn translated_adds_componentwise() {
    assert_eq!(p(1, 2, 3).translated(&p(-4, 5, -6)), Some(p(-3, 7, -3)));
    assert_eq!(p(i32::MIN, 0, 0).translated(&p(-1, 0, 0)), None);
}

#[test]
fn transform_ignores_the_rotation() {
    let mut mesh = placed(vec![big_triangle()], (1, 2, 3));
    let plain = mesh.transform_triangles();
    mesh.transform.rotation = Rotation { pitch: 90, yaw: 45, roll: -30 };
    assert_eq!(mesh.transform_triangles(), plain);
    assert_eq!(mesh.transform_point(&p(1, 1, 1)), Some(p(2, 3, 4)));
}

#[test]
fn transform_triangles_keeps_the_order() {
    let mesh = placed(vec![big_triangle(), far_away()], (1, 2, 3));
    let world = mesh.transform_triangles().unwrap();
    assert_eq!(
        world,
        vec![
            Triangle { v1: p(1, 2, 3), v2: p(1, 6, 3), v3: p(5, 6, 3) },
            Triangle { v1: p(101, 102, 3), v2: p(101, 106, 3), v3: p(105, 106, 3) },
        ]
    );
    // The mesh itself is as it was.
    assert_eq!(mesh.tris, vec![big_triangle(), far_away()]);
    assert_eq!(placed(vec![], (1, 2, 3)).transform_triangles(), Some(vec![]));
}

#[test]
fn transform_triangles_is_none_off_the_lattice() {
    let corner = Triangle { v1: p(0, 0, 0), v2: p(0, 4, 0), v3: p(4, 4, i32::MAX) };
    let mesh = placed(vec![big_triangle(), corner], (0, 0, 1));
    assert_eq!(mesh.transform_triangles(), None);
}

#[test]
fn mesh_first_hit_is_the_first_in_storage_order() {
    let lower = Triangle { v1: p(0, 0, -2), v2: p(0, 4, -2), v3: p(4, 4, -2) };
    let mesh = placed(vec![far_away(), big_triangle(), lower], (0, 0, 10));
    let r = ray((1, 2, 0), (0, 0, 1));
    assert_eq!(mesh.first_hit(&r), Some((1, Hit { t_num: 160, u_num: 4, v_num: 4, den: 16 })));
    assert_eq!(mesh.first_hit(&ray((50, 50, 0), (0, 0, 1))), None);
    assert_eq!(placed(vec![], (0, 0, 0)).first_hit(&r), None);
}

#[test]
fn mesh_off_the_lattice_is_still_tested_exactly() {
    // The third corner lies beyond the lattice once the mesh is placed; the
    // test against the ray is not affected.
    let t = Triangle { v1: p(0, 0, i32::MAX), v2: p(0, 4, i32::MAX), v3: p(4, 4, i32::MAX) };
    let mesh = placed(vec![t], (0, 0, i32::MAX));
    assert_eq!(mesh.transform_triangles(), None);
    let hit = mesh.first_hit(&ray((1, 2, 0), (0, 0, 1))).unwrap();
    assert_eq!(hit.0, 0);
    assert_eq!(hit.1.t_num, 2 * (i32::MAX as i128) * hit.1.den);
}

fn two_depths() -> Scene {
    // Along the ray from (1, 2, 0) towards +z the mesh that comes first lies
    // at distance 10, the one that comes second at distance 5.
    Scene {
        meshes: vec![
            placed(vec![far_away(), big_triangle()], (0, 0, 10)),
            placed(vec![big_triangle()], (0, 0, 5)),
        ],
    }
}

#[test]
fn first_hit_policy_takes_the_triangle_that_comes_first() {
    let scene = two_depths();
    let r = ray((1, 2, 0), (0, 0, 1));
    let far = SceneHit { mesh: 0, triangle: 1, hit: Hit { t_num: 160, u_num: 4, v_num: 4, den: 16 } };
    assert_eq!(scene.first_hit(&r), Some(far));
    assert_eq!(scene.find_hit(&r, HitPolicy::FirstHit), Some(far));
}

#[test]
fn nearest_hit_policy_takes_the_triangle_that_is_nearest() {
    let scene = two_depths();
    let r = ray((1, 2, 0), (0, 0, 1));
    let near = SceneHit { mesh: 1, triangle: 0, hit: Hit { t_num: 80, u_num: 4, v_num: 4, den: 16 } };
    assert_eq!(scene.nearest_hit(&r), Some(near));
    assert_eq!(scene.find_hit(&r, HitPolicy::NearestHit), Some(near));
}

#[test]
fn nearest_hit_takes_the_first_of_two_at_one_distance() {
    let scene = Scene {
        meshes: vec![
            placed(vec![big_triangle()], (0, 0, 7)),
            placed(vec![big_triangle(), big_triangle()], (0, 0, 5)),
            placed(vec![big_triangle()], (0, 0, 5)),
        ],
    };
    let r = ray((1, 2, 0), (0, 0, 1));
    let hit = scene.nearest_hit(&r).unwrap();
    assert_eq!((hit.mesh, hit.triangle), (1, 0));
    assert_eq!(hit.hit, Hit { t_num: 80, u_num: 4, v_num: 4, den: 16 });
    let first = scene.first_hit(&r).unwrap();
    assert_eq!((first.mesh, first.triangle), (0, 0));
}

#[test]
fn policies_agree_on_a_miss() {
    let scene = two_depths();
    let r = ray((1, 2, 0), (0, 0, -1));
    assert_eq!(scene.first_hit(&r), None);
    assert_eq!(scene.nearest_hit(&r), None);
    let empty = Scene { meshes: vec![] };
    assert_eq!(empty.first_hit(&ray((1, 2, 0), (0, 0, 1))), None);
    assert_eq!(empty.nearest_hit(&ray((1, 2, 0), (0, 0, 1))), None);
    let hollow = Scene { meshes: vec![placed(vec![], (0, 0, 0)), placed(vec![], (1, 1, 1))] };
    assert_eq!(hollow.first_hit(&ray((1, 2, 0), (0, 0, 1))), None);
    assert_eq!(hollow.nearest_hit(&ray((1, 2, 0), (0, 0, 1))), None);
}
