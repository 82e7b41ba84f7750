use softrender::color::Color;
use softrender::fixed::FX_ONE;
use softrender::raster::{barycentric_coordinates, triangle};
use softrender::vecfx::Vec3Fx;
use softrender::vertex::{Light, Vertex};

fn screen_vertex(x: i64, y: i64, z: i64) -> Vertex {
    Vertex {
        position: Vec3Fx { x, y, z },
        normal: Vec3Fx { x: 0, y: 0, z: FX_ONE },
        tex_u: 0,
        tex_v: 0,
        color: Color::black(),
        transformed_position: Vec3Fx { x, y, z },
        transformed_normal: Vec3Fx { x: 0, y: 0, z: FX_ONE },
    }
}

fn far_light() -> Light {
    Light::new(Vec3Fx { x: 0, y: 0, z: 100 * FX_ONE })
}

#[test]
fn weights_sum_to_one_inside() {
    let a = screen_vertex(0, 0, 0);
    let b = screen_vertex(4 * FX_ONE, 0, 0);
    let c = screen_vertex(0, 4 * FX_ONE, 0);
    let px = FX_ONE + FX_ONE / 2;
    let py = FX_ONE / 2;
    let (w1, w2, w3) = barycentric_coordinates(px, py, &a, &b, &c).expect("inside");
    assert_eq!(w1 + w2 + w3, FX_ONE);
    for w in [w1, w2, w3] {
        assert!((0..=FX_ONE).contains(&w));
    }
}

#[test]
fn weights_reject_outside() {
    let a = screen_vertex(0, 0, 0);
    let b = screen_vertex(4 * FX_ONE, 0, 0);
    let c = screen_vertex(0, 4 * FX_ONE, 0);
    assert!(barycentric_coordinates(10 * FX_ONE, 10 * FX_ONE, &a, &b, &c).is_none());
    assert!(barycentric_coordinates(-FX_ONE, FX_ONE / 2, &a, &b, &c).is_none());
}

#[test]
fn degenerate_triangle_rejects() {
    let a = screen_vertex(0, 0, 0);
    let b = screen_vertex(FX_ONE, FX_ONE, 0);
    let c = screen_vertex(2 * FX_ONE, 2 * FX_ONE, 0);
    assert!(barycentric_coordinates(FX_ONE, FX_ONE, &a, &b, &c).is_none());
}

#[test]
fn right_triangle_fragment_count() {
    let a = screen_vertex(0, 0, 0);
    let b = screen_vertex(4 * FX_ONE, 0, 0);
    let c = screen_vertex(0, 4 * FX_ONE, 0);
    let light = far_light();
    let frags = triangle(&a, &b, &c, &light);
    // The discretized area of the 4x4 right triangle is 8 pixels; the exact
    // pixel-center walk of this rasterizer covers 10, within one pixel per
    // edge of the area.
    assert_eq!(frags.len(), 10);
    let area = 8i64;
    assert!((frags.len() as i64 - area).abs() <= 3);
    // Scanline-major, left-to-right, contiguous within each scanline.
    let row0: Vec<i64> = frags.iter().filter(|f| f.y == FX_ONE / 2).map(|f| f.x).collect();
    let expected: Vec<i64> = (0..4).map(|i| i * FX_ONE + FX_ONE / 2).collect();
    assert_eq!(row0, expected);
}

#[test]
fn reversed_winding_produces_nothing() {
    let a = screen_vertex(0, 0, 0);
    let b = screen_vertex(4 * FX_ONE, 0, 0);
    let c = screen_vertex(0, 4 * FX_ONE, 0);
    let light = far_light();
    let frags = triangle(&c, &b, &a, &light);
    assert_eq!(frags.len(), 0);
}

#[test]
fn zero_normals_shade_black_not_panic() {
    // A zero interpolated normal skips renormalization (degenerate
    // fallback); the diffuse term then vanishes.
    let mut a = screen_vertex(0, 0, 0);
    let mut b = screen_vertex(4 * FX_ONE, 0, 0);
    let mut c = screen_vertex(0, 4 * FX_ONE, 0);
    for v in [&mut a, &mut b, &mut c] {
        v.normal = Vec3Fx { x: 0, y: 0, z: 0 };
        v.transformed_normal = Vec3Fx { x: 0, y: 0, z: 0 };
    }
    let frags = triangle(&a, &b, &c, &far_light());
    assert_eq!(frags.len(), 10);
    for f in &frags {
        assert_eq!((f.color.x, f.color.y, f.color.z), (0, 0, 0));
    }
}

#[test]
fn light_at_surface_gives_zero_direction() {
    // A light sitting exactly on the surface yields a zero light direction
    // (not an error) and therefore zero intensity at that point.
    let a = screen_vertex(0, 0, 0);
    let b = screen_vertex(4 * FX_ONE, 0, 0);
    let c = screen_vertex(0, 4 * FX_ONE, 0);
    let light = Light::new(Vec3Fx { x: FX_ONE / 2, y: FX_ONE / 2, z: 0 });
    let frags = triangle(&a, &b, &c, &light);
    let at_light = frags
        .iter()
        .find(|f| f.x == FX_ONE / 2 && f.y == FX_ONE / 2)
        .expect("pixel under the light");
    assert_eq!(at_light.color.x, 0);
}

#[test]
fn fragment_depth_interpolates() {
    let a = screen_vertex(0, 0, 5 * FX_ONE);
    let b = screen_vertex(4 * FX_ONE, 0, 5 * FX_ONE);
    let c = screen_vertex(0, 4 * FX_ONE, 5 * FX_ONE);
    let light = far_light();
    let frags = triangle(&a, &b, &c, &light);
    assert!(!frags.is_empty());
    for f in &frags {
        // All three corners sit at the same depth, so within rounding every
        // fragment does too.
        assert!((f.depth - 5 * FX_ONE).abs() <= 2);
    }
}

#[test]
fn facing_light_gives_brighter_fragments_than_grazing() {
    let a = screen_vertex(0, 0, 0);
    let b = screen_vertex(4 * FX_ONE, 0, 0);
    let c = screen_vertex(0, 4 * FX_ONE, 0);
    // Light along +z, normals along +z: full intensity, color 0.5 gray.
    let frags = triangle(&a, &b, &c, &far_light());
    assert!(!frags.is_empty());
    for f in &frags {
        assert!(f.color.x > FX_ONE / 4);
        assert_eq!(f.color.x, f.color.y);
        assert_eq!(f.color.y, f.color.z);
    }
    // Light from behind: intensity clamps to zero, fragments go black.
    let behind = Light::new(Vec3Fx { x: 0, y: 0, z: -100 * FX_ONE });
    let dark = triangle(&a, &b, &c, &behind);
    assert_eq!(dark.len(), frags.len());
    for f in &dark {
        assert_eq!(f.color.x, 0);
    }
}
