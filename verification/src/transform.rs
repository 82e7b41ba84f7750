//! The vertex transform stage: model, view, projection, perspective
//! division, and viewport mapping, applied in that order.

use vstd::prelude::*;
use crate::fixed::{fx_div, spec_fx_div, FX_ONE};
use crate::vecfx::{mat_ok, spec_mat_vec, vec3_ok, Mat4Fx, Vec3Fx, Vec4Fx};
use crate::vertex::{vertex_ok, Vertex};

verus! {

/// The per-drawable transform bundle: the four pipeline matrices and the
/// scene time (fixed-point seconds). Built once per drawable per frame and
/// read-only afterwards.
#[derive(Debug, Clone, Copy, PartialEq, Eq, Structural)]
pub struct Uniforms {
    pub model_matrix: Mat4Fx,
    pub view_matrix: Mat4Fx,
    pub projection_matrix: Mat4Fx,
    pub viewport_matrix: Mat4Fx,
    pub time: i64,
}

/// All four matrices lie in the representable band.
pub open spec fn uniforms_ok(u: Uniforms) -> bool {
    mat_ok(u.model_matrix) && mat_ok(u.view_matrix) && mat_ok(u.projection_matrix) && mat_ok(
        u.viewport_matrix,
    )
}

/// The screen-space position a vertex transforms to: lift to homogeneous
/// form, apply model, view, and projection, divide by `w` unless `w` is
/// exactly zero (the degenerate-camera fallback passes clip coordinates
/// through unchanged), then apply the viewport transform.
pub open spec fn spec_vertex_screen(position: Vec3Fx, u: Uniforms) -> (int, int, int) {
    let p4 = (position.x as int, position.y as int, position.z as int, FX_ONE as int);
    let world = spec_mat_vec(u.model_matrix, p4);
    let viewp = spec_mat_vec(u.view_matrix, world);
    let clip = spec_mat_vec(u.projection_matrix, viewp);
    let ndc = if clip.3 != 0 {
        (spec_fx_div(clip.0, clip.3), spec_fx_div(clip.1, clip.3), spec_fx_div(clip.2, clip.3))
    } else {
        (clip.0, clip.1, clip.2)
    };
    let screen = spec_mat_vec(u.viewport_matrix, (ndc.0, ndc.1, ndc.2, FX_ONE as int));
    (screen.0, screen.1, screen.2)
}

/// The vertex record the transform stage produces: all mesh attributes are
/// carried over, the screen position is filled in, and the normal is passed
/// through unchanged.
pub open spec fn spec_transformed_vertex(v: Vertex, u: Uniforms) -> Vertex {
    Vertex {
        position: v.position,
        normal: v.normal,
        tex_u: v.tex_u,
        tex_v: v.tex_v,
        color: v.color,
        transformed_position: Vec3Fx {
            x: spec_vertex_screen(v.position, u).0 as i64,
            y: spec_vertex_screen(v.position, u).1 as i64,
            z: spec_vertex_screen(v.position, u).2 as i64,
        },
        transformed_normal: v.normal,
    }
}

/// Transforms one vertex to screen space. Every mesh attribute is carried
/// over unchanged; the normal is passed through without an inverse-transpose
/// normal matrix (a deliberate simplification of this pipeline, on which the
/// lighting relies), and only the two transformed fields are filled in.
pub fn vertex_shader(vertex: &Vertex, uniforms: &Uniforms) -> (r: Vertex)
    requires
        vertex_ok(*vertex),
        uniforms_ok(*uniforms),
    ensures
        r == spec_transformed_vertex(*vertex, *uniforms),
        r.transformed_position.x == spec_vertex_screen(vertex.position, *uniforms).0,
        r.transformed_position.y == spec_vertex_screen(vertex.position, *uniforms).1,
        r.transformed_position.z == spec_vertex_screen(vertex.position, *uniforms).2,
        r.transformed_normal == vertex.normal,
        r.position == vertex.position,
        r.normal == vertex.normal,
        r.tex_u == vertex.tex_u,
        r.tex_v == vertex.tex_v,
        r.color == vertex.color,
        vertex_ok(r),
{
    let p4 = Vec4Fx { x: vertex.position.x, y: vertex.position.y, z: vertex.position.z, w: FX_ONE };
    let world = uniforms.model_matrix.mul_vec4(&p4);
    let viewp = uniforms.view_matrix.mul_vec4(&world);
    let clip = uniforms.projection_matrix.mul_vec4(&viewp);
    let ndc = if clip.w != 0 {
        Vec4Fx {
            x: fx_div(clip.x, clip.w),
            y: fx_div(clip.y, clip.w),
            z: fx_div(clip.z, clip.w),
            w: FX_ONE,
        }
    } else {
        Vec4Fx { x: clip.x, y: clip.y, z: clip.z, w: FX_ONE }
    };
    let screen = uniforms.viewport_matrix.mul_vec4(&ndc);
    Vertex {
        position: vertex.position,
        normal: vertex.normal,
        tex_u: vertex.tex_u,
        tex_v: vertex.tex_v,
        color: vertex.color,
        transformed_position: Vec3Fx { x: screen.x, y: screen.y, z: screen.z },
        transformed_normal: vertex.normal,
    }
}

} // verus!
