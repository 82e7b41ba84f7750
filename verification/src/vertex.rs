//! The pipeline's data records: vertices, fragments, and the point light.

use vstd::prelude::*;
use crate::color::Color;
use crate::fixed::fx_ok;
use crate::vecfx::{vec3_ok, Vec3Fx};

verus! {

/// An input vertex: immutable mesh attributes plus the two screen-space
/// fields the transform stage fills in. A transformed vertex is a derived
/// copy; the mesh's own vertices are never mutated.
#[derive(Debug, Clone, Copy, PartialEq, Eq, Structural)]
pub struct Vertex {
    pub position: Vec3Fx,
    pub normal: Vec3Fx,
    pub tex_u: i64,
    pub tex_v: i64,
    pub color: Color,
    pub transformed_position: Vec3Fx,
    pub transformed_normal: Vec3Fx,
}

/// All coordinates of the vertex lie in the representable band.
pub open spec fn vertex_ok(v: Vertex) -> bool {
    vec3_ok(v.position) && vec3_ok(v.normal) && fx_ok(v.tex_u as int) && fx_ok(v.tex_v as int)
        && vec3_ok(v.transformed_position) && vec3_ok(v.transformed_normal)
}

impl Vertex {
    /// Builds a mesh vertex, clamping every coordinate into the
    /// representable band; the transformed fields start at zero.
    pub fn new(position: Vec3Fx, normal: Vec3Fx, tex_u: i64, tex_v: i64, color: Color) -> (v:
        Vertex)
        ensures
            v.position == (Vec3Fx {
                x: crate::fixed::spec_clamp(position.x as int) as i64,
                y: crate::fixed::spec_clamp(position.y as int) as i64,
                z: crate::fixed::spec_clamp(position.z as int) as i64,
            }),
            v.normal == (Vec3Fx {
                x: crate::fixed::spec_clamp(normal.x as int) as i64,
                y: crate::fixed::spec_clamp(normal.y as int) as i64,
                z: crate::fixed::spec_clamp(normal.z as int) as i64,
            }),
            v.tex_u == crate::fixed::spec_clamp(tex_u as int),
            v.tex_v == crate::fixed::spec_clamp(tex_v as int),
            v.color == color,
            v.transformed_position == Vec3Fx::spec_zero(),
            v.transformed_normal == Vec3Fx::spec_zero(),
            vertex_ok(v),
    {
        Vertex {
            position: Vec3Fx::new(position.x, position.y, position.z),
            normal: Vec3Fx::new(normal.x, normal.y, normal.z),
            tex_u: crate::fixed::fx_clamp(tex_u),
            tex_v: crate::fixed::fx_clamp(tex_v),
            color,
            transformed_position: Vec3Fx::zero(),
            transformed_normal: Vec3Fx::zero(),
        }
    }
}

/// A candidate pixel sample produced by the rasterizer: a pixel-center
/// position, an interpolated lit color, an interpolated depth, and the
/// interpolated world-space position.
#[derive(Debug, Clone, Copy, PartialEq, Eq, Structural)]
pub struct Fragment {
    pub x: i64,
    pub y: i64,
    pub color: Vec3Fx,
    pub depth: i64,
    pub world_position: Vec3Fx,
}

/// A fragment whose interpolated attributes lie in the representable band.
pub open spec fn frag_ok(f: Fragment) -> bool {
    vec3_ok(f.world_position) && vec3_ok(f.color)
}

/// A single point light, read-only during rendering.
#[derive(Debug, Clone, Copy, PartialEq, Eq, Structural)]
pub struct Light {
    pub position: Vec3Fx,
}

impl Light {
    /// A light at the given position, clamped into the representable band.
    pub fn new(position: Vec3Fx) -> (l: Light)
        ensures
            l.position.x == crate::fixed::spec_clamp(position.x as int),
            l.position.y == crate::fixed::spec_clamp(position.y as int),
            l.position.z == crate::fixed::spec_clamp(position.z as int),
            vec3_ok(l.position),
    {
        Light { position: Vec3Fx::new(position.x, position.y, position.z) }
    }
}

} // verus!
