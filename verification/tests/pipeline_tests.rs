use softrender::color::Color;
use softrender::fixed::FX_ONE;
use softrender::pipeline::{
    assemble_triangles, cull_depth, frame_writes, rasterize_budgeted, render,
    transform_vertices, MAX_FRAGMENTS, MAX_VERTICES, SHADE_BATCH,
};
use softrender::shaders::PlanetShaderType;
use softrender::transform::Uniforms;
use softrender::vecfx::{Mat4Fx, Vec3Fx};
use softrender::vertex::{Fragment, Light, Vertex};

fn identity_uniforms() -> Uniforms {
    Uniforms {
        model_matrix: Mat4Fx::identity(),
        view_matrix: Mat4Fx::identity(),
        projection_matrix: Mat4Fx::identity(),
        viewport_matrix: Mat4Fx::identity(),
        time: 0,
    }
}

fn mesh_vertex(x: i64, y: i64, z: i64) -> Vertex {
    Vertex::new(
        Vec3Fx { x, y, z },
        Vec3Fx { x: 0, y: 0, z: FX_ONE },
        0,
        0,
        Color::black(),
    )
}

fn far_light() -> Light {
    Light::new(Vec3Fx { x: 0, y: 0, z: 1000 * FX_ONE })
}

#[test]
fn vertex_budget_takes_prefix() {
    let uniforms = identity_uniforms();
    let n = MAX_VERTICES;
    let stream: Vec<Vertex> = (0..2 * n).map(|i| mesh_vertex(i as i64, 0, 0)).collect();
    let transformed = transform_vertices(&stream, &uniforms);
    assert_eq!(transformed.len(), n);
    // The prefix is transformed in order; under identity matrices the
    // screen position equals the local position.
    for (i, v) in transformed.iter().enumerate() {
        assert_eq!(v.transformed_position.x, i as i64);
    }
}

#[test]
fn short_streams_transform_whole() {
    let uniforms = identity_uniforms();
    let stream: Vec<Vertex> = (0..7).map(|i| mesh_vertex(i, i, 0)).collect();
    assert_eq!(transform_vertices(&stream, &uniforms).len(), 7);
}

#[test]
fn seven_vertices_make_two_triangles() {
    let stream: Vec<Vertex> = (0..7).map(|i| mesh_vertex(i, 2 * i, 0)).collect();
    let tris = assemble_triangles(&stream);
    assert_eq!(tris.len(), 2);
    assert_eq!(tris[0].0.position.x, 0);
    assert_eq!(tris[0].2.position.x, 2);
    assert_eq!(tris[1].0.position.x, 3);
    assert_eq!(tris[1].2.position.x, 5);
    // Vertex 6 is unused: no triple reaches it.
}

#[test]
fn depth_window_rejects_far_triangles() {
    let near = (
        screen_tri_vertex(0, 0, 0),
        screen_tri_vertex(4, 0, 0),
        screen_tri_vertex(0, 4, 0),
    );
    let far = (
        screen_tri_vertex(0, 0, 2500),
        screen_tri_vertex(4, 0, 2500),
        screen_tri_vertex(0, 4, 2500),
    );
    let edge = (
        screen_tri_vertex(0, 0, 1999),
        screen_tri_vertex(4, 0, 1999),
        screen_tri_vertex(0, 4, 1999),
    );
    let kept = cull_depth(&vec![near, far, edge]);
    assert_eq!(kept.len(), 2);
    assert_eq!(kept[0].0.transformed_position.z, 0);
    assert_eq!(kept[1].0.transformed_position.z, 1999 * FX_ONE);
}

fn screen_tri_vertex(x: i64, y: i64, z: i64) -> Vertex {
    Vertex {
        position: Vec3Fx { x: x * FX_ONE, y: y * FX_ONE, z: z * FX_ONE },
        normal: Vec3Fx { x: 0, y: 0, z: FX_ONE },
        tex_u: 0,
        tex_v: 0,
        color: Color::black(),
        transformed_position: Vec3Fx { x: x * FX_ONE, y: y * FX_ONE, z: z * FX_ONE },
        transformed_normal: Vec3Fx { x: 0, y: 0, z: FX_ONE },
    }
}

#[test]
fn fragment_budget_caps_output() {
    // A 300 x 300 right triangle covers about 45000 pixels, far over the
    // budget, so rasterization truncates at exactly the ceiling.
    let big = (
        screen_tri_vertex(0, 0, 0),
        screen_tri_vertex(300, 0, 0),
        screen_tri_vertex(0, 300, 0),
    );
    let frags = rasterize_budgeted(&vec![big], &far_light());
    assert_eq!(frags.len(), MAX_FRAGMENTS);
}

#[test]
fn small_meshes_fit_the_budget() {
    let small = (
        screen_tri_vertex(0, 0, 0),
        screen_tri_vertex(4, 0, 0),
        screen_tri_vertex(0, 4, 0),
    );
    let frags = rasterize_budgeted(&vec![small], &far_light());
    assert_eq!(frags.len(), 10);
}

#[test]
fn render_respects_fragment_budget() {
    let uniforms = identity_uniforms();
    let stream = vec![
        mesh_vertex(0, 0, 0),
        mesh_vertex(300 * FX_ONE, 0, 0),
        mesh_vertex(0, 300 * FX_ONE, 0),
    ];
    let frags = render(&stream, &uniforms, &far_light(), PlanetShaderType::Terra);
    assert!(frags.len() <= MAX_FRAGMENTS);
    assert_eq!(frags.len() % SHADE_BATCH, 0);
    assert!(!frags.is_empty());
}

#[test]
fn render_small_scene_end_to_end() {
    let uniforms = identity_uniforms();
    let stream = vec![
        mesh_vertex(0, 0, 0),
        mesh_vertex(4 * FX_ONE, 0, 0),
        mesh_vertex(0, 4 * FX_ONE, 0),
    ];
    let frags = render(&stream, &uniforms, &far_light(), PlanetShaderType::Terra);
    assert_eq!(frags.len(), 10);
}

#[test]
fn fewer_than_three_vertices_render_nothing() {
    let uniforms = identity_uniforms();
    let stream = vec![mesh_vertex(0, 0, 0), mesh_vertex(FX_ONE, 0, 0)];
    let frags = render(&stream, &uniforms, &far_light(), PlanetShaderType::Mossar);
    assert!(frags.is_empty());
}

#[test]
fn empty_stream_renders_nothing() {
    let uniforms = identity_uniforms();
    let frags = render(&Vec::new(), &uniforms, &far_light(), PlanetShaderType::Vulcan);
    assert!(frags.is_empty());
}

#[test]
fn frame_writes_bounds_check_and_pack() {
    let inside = Fragment {
        x: 3 * FX_ONE + FX_ONE / 2,
        y: 2 * FX_ONE + FX_ONE / 2,
        color: Vec3Fx { x: FX_ONE, y: 0, z: 2 * FX_ONE },
        depth: 7,
        world_position: Vec3Fx { x: 0, y: 0, z: 0 },
    };
    let outside = Fragment { x: 99 * FX_ONE, ..inside };
    let negative = Fragment { x: -5 * FX_ONE, ..inside };
    let writes = frame_writes(&vec![inside, outside, negative], 10, 10);
    assert_eq!(writes.len(), 2);
    assert_eq!((writes[0].x, writes[0].y), (3, 2));
    // Channels clamp to [0, 1] before scaling: 1.0 -> 255, 2.0 -> 255.
    assert_eq!(writes[0].color, 0xFF00FF);
    assert_eq!(writes[0].depth, 7);
    // A negative coordinate collapses to column zero and stays in bounds.
    assert_eq!((writes[1].x, writes[1].y), (0, 2));
}
