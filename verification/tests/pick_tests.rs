use std::cell::Cell;

use rust_gl::mesh::{Material, Mesh, Model, Pose, Texture, TextureKind, Vertex};
use rust_gl::pick::{pick, Triangle};
use rust_gl::scalar::{Scalar, Vec2, Vec3};
use rust_gl::state::State;

fn s(x: f32) -> Scalar {
    Scalar::from_bits(x.to_bits())
}

fn v3(x: f32, y: f32, z: f32) -> Vec3 {
    Vec3 { x: s(x), y: s(y), z: s(z) }
}

fn f(v: Vec3) -> [f32; 3] {
    [f32::from_bits(v.x.bits), f32::from_bits(v.y.bits), f32::from_bits(v.z.bits)]
}

fn sub(a: [f32; 3], b: [f32; 3]) -> [f32; 3] {
    [a[0] - b[0], a[1] - b[1], a[2] - b[2]]
}

fn dot(a: [f32; 3], b: [f32; 3]) -> f32 {
    a[0] * b[0] + a[1] * b[1] + a[2] * b[2]
}

fn cross(a: [f32; 3], b: [f32; 3]) -> [f32; 3] {
    [a[1] * b[2] - a[2] * b[1], a[2] * b[0] - a[0] * b[2], a[0] * b[1] - a[1] * b[0]]
}

fn normalize(a: [f32; 3]) -> [f32; 3] {
    let len = dot(a, a).sqrt();
    [a[0] / len, a[1] / len, a[2] / len]
}

/// A ray in world space.
#[derive(Clone, Copy)]
struct Ray {
    origin: [f32; 3],
    dir: [f32; 3],
}

/// The ray through a point of the viewport, for a camera at `eye` that looks
/// down the negative z axis with a vertical field of view of 45 degrees.
fn ray_through(screen: [f32; 2], viewport: [f32; 2], eye: [f32; 3]) -> Ray {
    let ndc_x = screen[0] / (viewport[0] * 0.5) - 1.0;
    let ndc_y = screen[1] / (viewport[1] * 0.5) - 1.0;
    let t = (45.0f32.to_radians() * 0.5).tan();
    let aspect = viewport[0] / viewport[1];
    let near = 0.01;
    let point = [eye[0] + ndc_x * t * aspect * near, eye[1] - ndc_y * t * near, eye[2] - near];
    Ray { origin: point, dir: normalize(sub(point, eye)) }
}

/// A corner of a mesh in world space, for a mesh that is not rotated.
fn placed(mesh: &Mesh, corner: Vec3) -> [f32; 3] {
    let c = f(corner);
    let scale = f(mesh.scale);
    let position = f(mesh.position);
    [c[0] * scale[0] + position[0], c[1] * scale[1] + position[1], c[2] * scale[2] + position[2]]
}

fn ray_meets(ray: Ray, mesh: &Mesh, t: &Triangle) -> bool {
    let eps = 1e-6;
    let v0 = placed(mesh, t.a);
    let v1 = placed(mesh, t.b);
    let v2 = placed(mesh, t.c);
    let e1 = sub(v1, v0);
    let e2 = sub(v2, v0);
    let pvec = cross(ray.dir, e2);
    let det = dot(e1, pvec);
    if det.abs() < eps {
        return false;
    }
    let inv_det = 1.0 / det;
    let tvec = sub(ray.origin, v0);
    let u = dot(tvec, pvec) * inv_det;
    if u < 0.0 || u > 1.0 {
        return false;
    }
    let qvec = cross(tvec, e1);
    let v = dot(ray.dir, qvec) * inv_det;
    if v < 0.0 || u + v > 1.0 {
        return false;
    }
    dot(e2, qvec) * inv_det > eps
}

fn material() -> Material {
    Material::new("m".to_string(), v3(0.2, 0.2, 0.2), v3(0.7, 0.7, 0.7), v3(0.1, 0.1, 0.1), s(32.0))
}

fn vertex(x: f32, y: f32, z: f32) -> Vertex {
    Vertex::new(v3(x, y, z), v3(0.0, 0.0, 0.0), Vec2 { x: s(0.0), y: s(0.0) })
}

fn at(x: f32, y: f32, z: f32) -> Pose {
    Pose { position: v3(x, y, z), rotation: v3(0.0, 0.0, 0.0), scale: v3(1.0, 1.0, 1.0) }
}

fn unit_cube(id: u64, pose: Pose) -> Mesh {
    let h = 0.5;
    let vertices = vec![
        vertex(-h, -h, -h),
        vertex(h, -h, -h),
        vertex(h, h, -h),
        vertex(-h, h, -h),
        vertex(-h, -h, h),
        vertex(h, -h, h),
        vertex(h, h, h),
        vertex(-h, h, h),
    ];
    let indices = vec![
        0, 1, 2, 0, 2, 3, // back
        4, 5, 6, 4, 6, 7, // front
        0, 4, 7, 0, 7, 3, // left
        1, 5, 6, 1, 6, 2, // right
        3, 2, 6, 3, 6, 7, // top
        0, 1, 5, 0, 5, 4, // bottom
    ];
    Mesh::new(id, "cube", vertices, indices, vec![], material(), pose)
}

fn model(meshes: Vec<Mesh>) -> Model {
    Model { name: "model".to_string(), meshes }
}

#[test]
fn a_pick_at_the_centre_of_the_viewport_finds_the_cube() {
    let scene = vec![model(vec![unit_cube(7, at(0.0, 0.0, 0.0))])];
    let viewport = [800.0, 600.0];
    let ray = ray_through([400.0, 300.0], viewport, [0.0, 0.0, 5.0]);
    assert_eq!(pick(&scene, |mesh, t| ray_meets(ray, mesh, t)), Some(7));
}

#[test]
fn a_pick_at_a_corner_of_the_viewport_finds_nothing() {
    let scene = vec![model(vec![unit_cube(7, at(0.0, 0.0, 0.0))])];
    let viewport = [800.0, 600.0];
    for corner in [[0.0, 0.0], [800.0, 0.0], [0.0, 600.0], [800.0, 600.0]] {
        let ray = ray_through(corner, viewport, [0.0, 0.0, 5.0]);
        assert_eq!(pick(&scene, |mesh, t| ray_meets(ray, mesh, t)), None);
    }
}

/// Picking takes the first triangle hit in the order of the scene, not the
/// nearest one: a known limitation, kept on purpose.
#[test]
fn of_two_meshes_on_one_ray_the_first_in_the_scene_is_picked() {
    let far = unit_cube(1, at(0.0, 0.0, -3.0));
    let near = unit_cube(2, at(0.0, 0.0, 0.0));
    let scene = vec![model(vec![far, near])];
    let ray = ray_through([400.0, 300.0], [800.0, 600.0], [0.0, 0.0, 5.0]);
    assert_eq!(pick(&scene, |mesh, t| ray_meets(ray, mesh, t)), Some(1));
    let far = unit_cube(1, at(0.0, 0.0, -3.0));
    let near = unit_cube(2, at(0.0, 0.0, 0.0));
    let scene = vec![model(vec![near]), model(vec![far])];
    assert_eq!(pick(&scene, |mesh, t| ray_meets(ray, mesh, t)), Some(2));
}

#[test]
fn a_mesh_moved_out_of_the_ray_is_not_picked() {
    let scene = vec![model(vec![unit_cube(1, at(3.0, 0.0, 0.0)), unit_cube(2, at(0.0, 0.0, -2.0))])];
    let ray = ray_through([400.0, 300.0], [800.0, 600.0], [0.0, 0.0, 5.0]);
    assert_eq!(pick(&scene, |mesh, t| ray_meets(ray, mesh, t)), Some(2));
}

#[test]
fn triangles_are_tested_in_order_and_none_after_the_hit() {
    let scene = vec![
        model(vec![]),
        model(vec![unit_cube(10, at(0.0, 0.0, 0.0)), unit_cube(11, at(0.0, 0.0, 0.0))]),
        model(vec![unit_cube(12, at(0.0, 0.0, 0.0))]),
    ];
    let calls = Cell::new(0usize);
    let picked = pick(&scene, |mesh, _| {
        calls.set(calls.get() + 1);
        mesh.id == 11 && calls.get() == 12 + 5
    });
    assert_eq!(picked, Some(11));
    assert_eq!(calls.get(), 17);
    let calls = Cell::new(0usize);
    assert_eq!(
        pick(&scene, |_, _| {
            calls.set(calls.get() + 1);
            false
        }),
        None
    );
    assert_eq!(calls.get(), 36);
}

#[test]
fn the_test_sees_the_corners_of_each_triangle() {
    let mesh = Mesh::new(
        3,
        "fan",
        vec![vertex(0.0, 0.0, 0.0), vertex(1.0, 0.0, 0.0), vertex(0.0, 1.0, 0.0), vertex(0.0, 0.0, 1.0)],
        vec![0, 1, 2, 0, 2, 3],
        vec![],
        material(),
        at(0.0, 0.0, 0.0),
    );
    assert_eq!(mesh.triangles(), 2);
    assert_eq!(
        mesh.triangle(1),
        Some(Triangle { a: v3(0.0, 0.0, 0.0), b: v3(0.0, 1.0, 0.0), c: v3(0.0, 0.0, 1.0) })
    );
    assert_eq!(mesh.triangle(2), None);
    let scene = vec![model(vec![mesh])];
    let wanted = Triangle { a: v3(0.0, 0.0, 0.0), b: v3(0.0, 1.0, 0.0), c: v3(0.0, 0.0, 1.0) };
    assert_eq!(pick(&scene, |_, t| *t == wanted), Some(3));
}

#[test]
fn what_is_no_triangle_is_not_tested() {
    let mesh = Mesh::new(
        4,
        "ragged",
        vec![vertex(0.0, 0.0, 0.0), vertex(1.0, 0.0, 0.0), vertex(0.0, 1.0, 0.0)],
        vec![0, 1, 3, 0, 1, 2, 2, 1],
        vec![],
        material(),
        at(0.0, 0.0, 0.0),
    );
    assert_eq!(mesh.triangles(), 2);
    assert_eq!(mesh.triangle(0), None);
    assert!(mesh.triangle(1).is_some());
    let calls = Cell::new(0usize);
    let scene = vec![model(vec![mesh])];
    assert_eq!(
        pick(&scene, |_, _| {
            calls.set(calls.get() + 1);
            false
        }),
        None
    );
    assert_eq!(calls.get(), 1);
}

#[test]
fn an_empty_scene_has_nothing_to_pick() {
    let scene: Vec<Model> = vec![];
    assert_eq!(pick(&scene, |_, _| true), None);
}

#[test]
fn the_state_keeps_the_pick_as_its_selection() {
    let mut state = State::default();
    assert_eq!(state.selected, None);
    state.objects.push(model(vec![unit_cube(7, at(0.0, 0.0, 0.0))]));
    let viewport = [800.0, 600.0];
    let centre = ray_through([400.0, 300.0], viewport, [0.0, 0.0, 5.0]);
    state.pick(|mesh, t| ray_meets(centre, mesh, t));
    assert_eq!(state.selected, Some(7));
    let corner = ray_through([0.0, 0.0], viewport, [0.0, 0.0, 5.0]);
    state.pick(|mesh, t| ray_meets(corner, mesh, t));
    assert_eq!(state.selected, None);
}

#[test]
fn textures_of_a_kind_are_numbered_from_two() {
    let kinds = [
        TextureKind::Diffuse,
        TextureKind::Specular,
        TextureKind::Diffuse,
        TextureKind::Diffuse,
        TextureKind::Specular,
    ];
    let textures: Vec<Texture> = kinds
        .iter()
        .enumerate()
        .map(|(i, kind)| Texture::new(i as u32, *kind, format!("t{}.png", i)))
        .collect();
    let mesh = Mesh::new(1, "m", vec![], vec![], textures, material(), at(0.0, 0.0, 0.0));
    assert_eq!(mesh.sampler_numbers(), vec![2, 2, 3, 4, 3]);
    let bare = Mesh::new(2, "bare", vec![], vec![], vec![], material(), at(0.0, 0.0, 0.0));
    assert_eq!(bare.sampler_numbers(), Vec::<u32>::new());
}
