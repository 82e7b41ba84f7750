use softrender::color::Color;
use softrender::fixed::FX_ONE;
use softrender::shaders::{
    fragment_shader, shader_mossar, shader_nepturion, shader_solarius, shader_terra,
    shader_vulcan, PlanetShaderType, SOLAR_CYCLE,
};
use softrender::transform::Uniforms;
use softrender::vecfx::{Mat4Fx, Vec3Fx};
use softrender::vertex::Fragment;

fn sample_fragment(x: i64, y: i64, z: i64) -> Fragment {
    Fragment {
        x: FX_ONE / 2,
        y: FX_ONE / 2,
        color: Vec3Fx { x: FX_ONE / 2, y: FX_ONE / 2, z: FX_ONE / 2 },
        depth: 0,
        world_position: Vec3Fx { x, y, z },
    }
}

fn uniforms_at(time: i64) -> Uniforms {
    Uniforms {
        model_matrix: Mat4Fx::identity(),
        view_matrix: Mat4Fx::identity(),
        projection_matrix: Mat4Fx::identity(),
        viewport_matrix: Mat4Fx::identity(),
        time,
    }
}

#[test]
fn every_material_is_deterministic() {
    let f = sample_fragment(3 * FX_ONE, -2 * FX_ONE, FX_ONE / 4);
    let t = 12345;
    for m in [
        PlanetShaderType::Terra,
        PlanetShaderType::Vulcan,
        PlanetShaderType::Solarius,
        PlanetShaderType::Nepturion,
        PlanetShaderType::Mossar,
    ] {
        let u = uniforms_at(t);
        let once = fragment_shader(&f, &u, m);
        let twice = fragment_shader(&f, &u, m);
        assert_eq!(once, twice);
    }
}

#[test]
fn solarius_repeats_after_one_cycle() {
    let f = sample_fragment(FX_ONE, 2 * FX_ONE, 3 * FX_ONE);
    for t in [0i64, 777, -40000, 5 * FX_ONE] {
        let a = shader_solarius(&f, t);
        let b = shader_solarius(&f, t + SOLAR_CYCLE);
        assert_eq!(a, b);
    }
}

#[test]
fn dispatch_selects_material() {
    let f = sample_fragment(FX_ONE, FX_ONE, FX_ONE);
    let u = uniforms_at(100);
    assert_eq!(fragment_shader(&f, &u, PlanetShaderType::Terra), shader_terra(&f, 100));
    assert_eq!(fragment_shader(&f, &u, PlanetShaderType::Vulcan), shader_vulcan(&f, 100));
    assert_eq!(fragment_shader(&f, &u, PlanetShaderType::Solarius), shader_solarius(&f, 100));
    assert_eq!(
        fragment_shader(&f, &u, PlanetShaderType::Nepturion),
        shader_nepturion(&f, 100)
    );
    assert_eq!(fragment_shader(&f, &u, PlanetShaderType::Mossar), shader_mossar(&f, 100));
}

#[test]
fn materials_differ_on_some_input() {
    let f = sample_fragment(3 * FX_ONE, 5 * FX_ONE, 7 * FX_ONE);
    let u = uniforms_at(999);
    let terra = fragment_shader(&f, &u, PlanetShaderType::Terra);
    let solarius = fragment_shader(&f, &u, PlanetShaderType::Solarius);
    assert_ne!(terra, solarius);
}

#[test]
fn shading_combines_with_base_color() {
    // A black base swallows a multiplicative material entirely.
    let mut f = sample_fragment(FX_ONE, FX_ONE, FX_ONE);
    f.color = Vec3Fx { x: 0, y: 0, z: 0 };
    let dark = shader_terra(&f, 0);
    assert_eq!((dark.x, dark.y, dark.z), (0, 0, 0));
    let _ = Color::black();
}

#[test]
fn nepturion_ring_band_only_within_radius() {
    // Inside the ring interval the ring term can add light; far outside the
    // interval the color is purely the banded gas.
    let t = 0;
    let inner = sample_fragment(2 * FX_ONE, 0, 0);
    let outer = sample_fragment(50 * FX_ONE, 0, 0);
    let a = shader_nepturion(&inner, t);
    let b = shader_nepturion(&outer, t);
    // Both are finite fixed-point colors; the ring case stays in band.
    for c in [a, b] {
        assert!(c.x.abs() <= softrender::fixed::FX_BIG);
    }
}
