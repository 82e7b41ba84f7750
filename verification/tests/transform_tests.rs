use softrender::color::Color;
use softrender::fixed::FX_ONE;
use softrender::transform::{vertex_shader, Uniforms};
use softrender::vecfx::{Mat4Fx, Vec3Fx};
use softrender::vertex::Vertex;

fn mesh_vertex(x: i64, y: i64, z: i64) -> Vertex {
    Vertex::new(
        Vec3Fx { x, y, z },
        Vec3Fx { x: 0, y: FX_ONE, z: 0 },
        3,
        4,
        Color::new(1, 2, 3),
    )
}

fn uniforms(model: Mat4Fx, view: Mat4Fx, projection: Mat4Fx, viewport: Mat4Fx) -> Uniforms {
    Uniforms {
        model_matrix: model,
        view_matrix: view,
        projection_matrix: projection,
        viewport_matrix: viewport,
        time: 0,
    }
}

fn translation(tx: i64, ty: i64, tz: i64) -> Mat4Fx {
    let mut m = Mat4Fx::identity();
    m.m12 = tx;
    m.m13 = ty;
    m.m14 = tz;
    m
}

#[test]
fn identity_chain_keeps_position() {
    let i = Mat4Fx::identity();
    let u = uniforms(i, i, i, i);
    let v = mesh_vertex(2 * FX_ONE, -3 * FX_ONE, FX_ONE / 2);
    let r = vertex_shader(&v, &u);
    assert_eq!(r.transformed_position, v.position);
    assert_eq!(r.position, v.position);
    assert_eq!(r.normal, v.normal);
    assert_eq!(r.transformed_normal, v.normal);
    assert_eq!(r.color, v.color);
    assert_eq!((r.tex_u, r.tex_v), (3, 4));
}

#[test]
fn model_translation_moves_position() {
    let i = Mat4Fx::identity();
    let u = uniforms(translation(10 * FX_ONE, 0, 0), i, i, i);
    let v = mesh_vertex(FX_ONE, 2 * FX_ONE, 0);
    let r = vertex_shader(&v, &u);
    assert_eq!(r.transformed_position.x, 11 * FX_ONE);
    assert_eq!(r.transformed_position.y, 2 * FX_ONE);
}

#[test]
fn perspective_division_by_w() {
    // A projection whose w row copies z gives NDC = position / z.
    let i = Mat4Fx::identity();
    let mut proj = Mat4Fx::identity();
    proj.m11 = FX_ONE; // w row takes z
    proj.m15 = 0;
    let u = uniforms(i, i, proj, i);
    let v = mesh_vertex(4 * FX_ONE, 2 * FX_ONE, 2 * FX_ONE);
    let r = vertex_shader(&v, &u);
    assert_eq!(r.transformed_position.x, 2 * FX_ONE);
    assert_eq!(r.transformed_position.y, FX_ONE);
    assert_eq!(r.transformed_position.z, FX_ONE);
}

#[test]
fn zero_w_passes_clip_coordinates_through() {
    // With the same projection, a vertex at z = 0 has w = 0: the clip
    // coordinates pass through undivided (degenerate-camera fallback).
    let i = Mat4Fx::identity();
    let mut proj = Mat4Fx::identity();
    proj.m11 = FX_ONE;
    proj.m15 = 0;
    let u = uniforms(i, i, proj, i);
    let v = mesh_vertex(4 * FX_ONE, 2 * FX_ONE, 0);
    let r = vertex_shader(&v, &u);
    assert_eq!(r.transformed_position.x, 4 * FX_ONE);
    assert_eq!(r.transformed_position.y, 2 * FX_ONE);
    assert_eq!(r.transformed_position.z, 0);
}

#[test]
fn viewport_scales_ndc() {
    // A viewport that scales x by 100 and shifts by 400 maps NDC 1.0 to 500.
    let i = Mat4Fx::identity();
    let mut vp = Mat4Fx::identity();
    vp.m0 = 100 * FX_ONE;
    vp.m12 = 400 * FX_ONE;
    let u = uniforms(i, i, i, vp);
    let v = mesh_vertex(FX_ONE, 0, 0);
    let r = vertex_shader(&v, &u);
    assert_eq!(r.transformed_position.x, 500 * FX_ONE);
}
