//! The scanline rasterizer: barycentric acceptance, edge intersection,
//! scanline spans, attribute interpolation, and diffuse lighting.

use vstd::prelude::*;
use vstd::arithmetic::div_mod::{
    lemma_div_is_ordered, lemma_div_multiples_vanish, lemma_div_pos_is_pos,
    lemma_fundamental_div_mod, lemma_mod_division_less_than_divisor,
};
use crate::fixed::{
    fx_clamp, fx_div, fx_mul, fx_ok_pad, lemma_mul_bound, spec_clamp, spec_fx_ceil, spec_fx_div,
    spec_fx_floor, spec_fx_mul, FX_HALF, FX_ONE,
};
use crate::vecfx::{dot3_clamped, spec_dot3, spec_len3, vec3_ok, Vec3Fx};
use crate::vertex::{vertex_ok, Fragment, Light, Vertex};

verus! {

/// Twice the signed area of the triangle `a b c` in screen space; the
/// denominator of the barycentric area-ratio formula.
pub open spec fn bary_denom(a: Vec3Fx, b: Vec3Fx, c: Vec3Fx) -> int {
    (b.y - c.y) * (a.x - c.x) + (c.x - b.x) * (a.y - c.y)
}

/// Numerator of the first barycentric weight at sample point (px, py).
pub open spec fn bary_num1(a: Vec3Fx, b: Vec3Fx, c: Vec3Fx, px: int, py: int) -> int {
    (b.y - c.y) * (px - c.x) + (c.x - b.x) * (py - c.y)
}

/// Numerator of the second barycentric weight at sample point (px, py).
pub open spec fn bary_num2(a: Vec3Fx, b: Vec3Fx, c: Vec3Fx, px: int, py: int) -> int {
    (c.y - a.y) * (px - c.x) + (a.x - c.x) * (py - c.y)
}

/// The two numerators and the denominator, signs normalized so the
/// denominator is non-negative; the weight ratios are unchanged.
pub open spec fn bary_norm(a: Vec3Fx, b: Vec3Fx, c: Vec3Fx, px: int, py: int) -> (
    int,
    int,
    int,
) {
    let d = bary_denom(a, b, c);
    let e1 = bary_num1(a, b, c, px, py);
    let e2 = bary_num2(a, b, c, px, py);
    if d >= 0 {
        (e1, e2, d)
    } else {
        (-e1, -e2, -d)
    }
}

/// Whether the sample point passes the exact barycentric test: the triangle
/// is not degenerate and all three weights lie in [0, 1].
pub open spec fn bary_accept(a: Vec3Fx, b: Vec3Fx, c: Vec3Fx, px: int, py: int) -> bool {
    let (e1, e2, d) = bary_norm(a, b, c, px, py);
    d != 0 && 0 <= e1 && e1 <= d && 0 <= e2 && e2 <= d && e1 + e2 <= d
}

/// The first barycentric weight in fixed point (exact ratio, truncated).
pub open spec fn bary_w1(a: Vec3Fx, b: Vec3Fx, c: Vec3Fx, px: int, py: int) -> int {
    let (e1, e2, d) = bary_norm(a, b, c, px, py);
    (e1 * (FX_ONE as int)) / d
}

/// The second barycentric weight in fixed point.
pub open spec fn bary_w2(a: Vec3Fx, b: Vec3Fx, c: Vec3Fx, px: int, py: int) -> int {
    let (e1, e2, d) = bary_norm(a, b, c, px, py);
    (e2 * (FX_ONE as int)) / d
}

/// The third barycentric weight: whatever remains of one whole unit, so the
/// three weights always sum to exactly one.
pub open spec fn bary_w3(a: Vec3Fx, b: Vec3Fx, c: Vec3Fx, px: int, py: int) -> int {
    FX_ONE - bary_w1(a, b, c, px, py) - bary_w2(a, b, c, px, py)
}

/// On an accepted sample the two truncated weight ratios lie in [0, 1] and
/// together never exceed 1.
proof fn lemma_weight_ratios(e1: int, e2: int, d: int)
    requires
        d > 0,
        0 <= e1 <= d,
        0 <= e2 <= d,
        e1 + e2 <= d,
    ensures
        0 <= (e1 * (FX_ONE as int)) / d <= FX_ONE as int,
        0 <= (e2 * (FX_ONE as int)) / d <= FX_ONE as int,
        (e1 * (FX_ONE as int)) / d + (e2 * (FX_ONE as int)) / d <= FX_ONE as int,
{
    let one = FX_ONE as int;
    lemma_div_pos_is_pos(e1 * one, d);
    lemma_div_pos_is_pos(e2 * one, d);
    lemma_div_is_ordered(e1 * one, d * one, d);
    lemma_div_is_ordered(e2 * one, d * one, d);
    lemma_div_multiples_vanish(one, d);
    let q1 = (e1 * one) / d;
    let q2 = (e2 * one) / d;
    lemma_fundamental_div_mod(e1 * one, d);
    lemma_fundamental_div_mod(e2 * one, d);
    lemma_mod_division_less_than_divisor(e1 * one, d);
    lemma_mod_division_less_than_divisor(e2 * one, d);
    assert(q1 + q2 <= one) by (nonlinear_arith)
        requires
            d > 0,
            d * q1 <= e1 * one,
            d * q2 <= e2 * one,
            (e1 + e2) * one <= d * one,
    ;
}

/// Law: the three barycentric weights of any accepted sample each lie in
/// [0, 1] and sum to exactly 1 (one whole fixed-point unit).
pub proof fn lemma_weights_unity(a: Vec3Fx, b: Vec3Fx, c: Vec3Fx, px: int, py: int)
    requires
        bary_accept(a, b, c, px, py),
    ensures
        0 <= bary_w1(a, b, c, px, py) <= FX_ONE as int,
        0 <= bary_w2(a, b, c, px, py) <= FX_ONE as int,
        0 <= bary_w3(a, b, c, px, py) <= FX_ONE as int,
        bary_w1(a, b, c, px, py) + bary_w2(a, b, c, px, py) + bary_w3(a, b, c, px, py)
            == FX_ONE as int,
{
    let (e1, e2, d) = bary_norm(a, b, c, px, py);
    lemma_weight_ratios(e1, e2, d);
}

/// Exact barycentric test at a sample point, over the transformed positions
/// of the unsorted vertex triple. Returns the three fixed-point weights when
/// every weight lies in [0, 1]; rejects points outside the triangle, and
/// degenerate (zero-area) triangles, whose denominator is exactly zero in
/// this integer arithmetic.
pub fn barycentric_coordinates(px: i64, py: i64, a: &Vertex, b: &Vertex, c: &Vertex) -> (r:
    Option<(i64, i64, i64)>)
    requires
        vertex_ok(*a),
        vertex_ok(*b),
        vertex_ok(*c),
        fx_ok_pad(px as int),
        fx_ok_pad(py as int),
    ensures
        r.is_some() == bary_accept(
            a.transformed_position,
            b.transformed_position,
            c.transformed_position,
            px as int,
            py as int,
        ),
        r.is_some() ==> r == Some(
            (
                bary_w1(a.transformed_position, b.transformed_position, c.transformed_position,
                    px as int, py as int) as i64,
                bary_w2(a.transformed_position, b.transformed_position, c.transformed_position,
                    px as int, py as int) as i64,
                bary_w3(a.transformed_position, b.transformed_position, c.transformed_position,
                    px as int, py as int) as i64,
            ),
        ),
{
    let ta = a.transformed_position;
    let tb = b.transformed_position;
    let tc = c.transformed_position;
    proof {
        lemma_mul_bound((tb.y - tc.y) as int, (ta.x - tc.x) as int, 0x8000_0000_0000int,
            0x8000_0000_0000int);
        lemma_mul_bound((tc.x - tb.x) as int, (ta.y - tc.y) as int, 0x8000_0000_0000int,
            0x8000_0000_0000int);
        lemma_mul_bound((tb.y - tc.y) as int, (px - tc.x) as int, 0x8000_0000_0000int,
            0x8000_0000_0000int);
        lemma_mul_bound((tc.x - tb.x) as int, (py - tc.y) as int, 0x8000_0000_0000int,
            0x8000_0000_0000int);
        lemma_mul_bound((tc.y - ta.y) as int, (px - tc.x) as int, 0x8000_0000_0000int,
            0x8000_0000_0000int);
        lemma_mul_bound((ta.x - tc.x) as int, (py - tc.y) as int, 0x8000_0000_0000int,
            0x8000_0000_0000int);
    }
    let d: i128 = ((tb.y - tc.y) as i128) * ((ta.x - tc.x) as i128) + ((tc.x - tb.x) as i128)
        * ((ta.y - tc.y) as i128);
    let e1: i128 = ((tb.y - tc.y) as i128) * ((px - tc.x) as i128) + ((tc.x - tb.x) as i128)
        * ((py - tc.y) as i128);
    let e2: i128 = ((tc.y - ta.y) as i128) * ((px - tc.x) as i128) + ((ta.x - tc.x) as i128)
        * ((py - tc.y) as i128);
    if d == 0 {
        return None;
    }
    let (e1n, e2n, dn): (i128, i128, i128) = if d > 0 {
        (e1, e2, d)
    } else {
        (-e1, -e2, -d)
    };
    if e1n < 0 || e1n > dn {
        return None;
    }
    if e2n < 0 || e2n > dn {
        return None;
    }
    if e1n + e2n > dn {
        return None;
    }
    proof {
        lemma_weight_ratios(e1n as int, e2n as int, dn as int);
    }
    let w1 = ((e1n * (FX_ONE as i128)) / dn) as i64;
    let w2 = ((e2n * (FX_ONE as i128)) / dn) as i64;
    let w3 = FX_ONE - w1 - w2;
    Some((w1, w2, w3))
}

/// Casts a clamped value back into the `i64` band.
pub open spec fn cfx(x: int) -> i64 {
    spec_clamp(x) as i64
}

/// The fragment emitted at an accepted sample point (px, py): attributes are
/// interpolated with the barycentric weights, the normal is renormalized
/// unless degenerate, the light direction is normalized unless degenerate,
/// and the base gray is scaled by the clamped diffuse term.
pub open spec fn spec_frag(
    v1: Vertex,
    v2: Vertex,
    v3: Vertex,
    light: Light,
    px: int,
    py: int,
) -> Fragment {
    let ta = v1.transformed_position;
    let tb = v2.transformed_position;
    let tc = v3.transformed_position;
    let w1 = bary_w1(ta, tb, tc, px, py);
    let w2 = bary_w2(ta, tb, tc, px, py);
    let w3 = bary_w3(ta, tb, tc, px, py);
    let n = Vec3Fx {
        x: cfx(spec_dot3(w1, w2, w3, v1.normal.x as int, v2.normal.x as int, v3.normal.x as int)),
        y: cfx(spec_dot3(w1, w2, w3, v1.normal.y as int, v2.normal.y as int, v3.normal.y as int)),
        z: cfx(spec_dot3(w1, w2, w3, v1.normal.z as int, v2.normal.z as int, v3.normal.z as int)),
    };
    let ln = spec_len3(n);
    let nn = if ln > 0 {
        Vec3Fx {
            x: cfx(spec_fx_div(n.x as int, ln)),
            y: cfx(spec_fx_div(n.y as int, ln)),
            z: cfx(spec_fx_div(n.z as int, ln)),
        }
    } else {
        n
    };
    let w = Vec3Fx {
        x: cfx(spec_dot3(w1, w2, w3, v1.position.x as int, v2.position.x as int,
            v3.position.x as int)),
        y: cfx(spec_dot3(w1, w2, w3, v1.position.y as int, v2.position.y as int,
            v3.position.y as int)),
        z: cfx(spec_dot3(w1, w2, w3, v1.position.z as int, v2.position.z as int,
            v3.position.z as int)),
    };
    let ldir = Vec3Fx {
        x: cfx(light.position.x - w.x),
        y: cfx(light.position.y - w.y),
        z: cfx(light.position.z - w.z),
    };
    let ll = spec_len3(ldir);
    let lnorm = if ll > 0 {
        Vec3Fx {
            x: cfx(spec_fx_div(ldir.x as int, ll)),
            y: cfx(spec_fx_div(ldir.y as int, ll)),
            z: cfx(spec_fx_div(ldir.z as int, ll)),
        }
    } else {
        Vec3Fx::spec_zero()
    };
    let d = spec_dot3(nn.x as int, nn.y as int, nn.z as int, lnorm.x as int, lnorm.y as int,
        lnorm.z as int);
    let intensity = if d >= 0 {
        d
    } else {
        0
    };
    let shade = cfx(spec_fx_mul(FX_HALF as int, intensity));
    Fragment {
        x: px as i64,
        y: py as i64,
        color: Vec3Fx { x: shade, y: shade, z: shade },
        depth: cfx(spec_dot3(w1, w2, w3, ta.z as int, tb.z as int, tc.z as int)),
        world_position: w,
    }
}

/// The fragment at (px, py), if the sample passes the barycentric test.
pub open spec fn spec_frag_at(
    v1: Vertex,
    v2: Vertex,
    v3: Vertex,
    light: Light,
    px: int,
    py: int,
) -> Option<Fragment> {
    if bary_accept(v1.transformed_position, v2.transformed_position, v3.transformed_position,
        px, py) {
        Some(spec_frag(v1, v2, v3, light, px, py))
    } else {
        None
    }
}

/// Rasterizes one sample point: barycentric confirmation, then attribute
/// interpolation and the diffuse lighting term.
pub fn frag_at(px: i64, py: i64, v1: &Vertex, v2: &Vertex, v3: &Vertex, light: &Light) -> (r:
    Option<Fragment>)
    requires
        vertex_ok(*v1),
        vertex_ok(*v2),
        vertex_ok(*v3),
        vec3_ok(light.position),
        fx_ok_pad(px as int),
        fx_ok_pad(py as int),
    ensures
        r == spec_frag_at(*v1, *v2, *v3, *light, px as int, py as int),
{
    let weights = barycentric_coordinates(px, py, v1, v2, v3);
    match weights {
        None => None,
        Some((w1, w2, w3)) => {
            proof {
                lemma_weights_unity(v1.transformed_position, v2.transformed_position,
                    v3.transformed_position, px as int, py as int);
            }
            let n = Vec3Fx {
                x: dot3_clamped(w1, w2, w3, v1.normal.x, v2.normal.x, v3.normal.x),
                y: dot3_clamped(w1, w2, w3, v1.normal.y, v2.normal.y, v3.normal.y),
                z: dot3_clamped(w1, w2, w3, v1.normal.z, v2.normal.z, v3.normal.z),
            };
            let ln = n.len();
            let nn = if ln > 0 {
                Vec3Fx { x: fx_div(n.x, ln), y: fx_div(n.y, ln), z: fx_div(n.z, ln) }
            } else {
                n
            };
            let w = Vec3Fx {
                x: dot3_clamped(w1, w2, w3, v1.position.x, v2.position.x, v3.position.x),
                y: dot3_clamped(w1, w2, w3, v1.position.y, v2.position.y, v3.position.y),
                z: dot3_clamped(w1, w2, w3, v1.position.z, v2.position.z, v3.position.z),
            };
            let ldir = Vec3Fx {
                x: fx_clamp(light.position.x - w.x),
                y: fx_clamp(light.position.y - w.y),
                z: fx_clamp(light.position.z - w.z),
            };
            let ll = ldir.len();
            let lnorm = if ll > 0 {
                Vec3Fx { x: fx_div(ldir.x, ll), y: fx_div(ldir.y, ll), z: fx_div(ldir.z, ll) }
            } else {
                Vec3Fx::zero()
            };
            let d = dot3_clamped(nn.x, nn.y, nn.z, lnorm.x, lnorm.y, lnorm.z);
            let intensity = if d >= 0 {
                d
            } else {
                0
            };
            let shade = fx_mul(FX_HALF, intensity);
            Some(
                Fragment {
                    x: px,
                    y: py,
                    color: Vec3Fx { x: shade, y: shade, z: shade },
                    depth: dot3_clamped(w1, w2, w3, v1.transformed_position.z,
                        v2.transformed_position.z, v3.transformed_position.z),
                    world_position: w,
                },
            )
        },
    }
}

/// Edges flatter than this many fixed-point units per scanline are treated
/// as horizontal and never produce an intersection (about 0.01 pixel).
pub const EDGE_EPS: i64 = 655;

/// Stable ascending sort of the vertex triple by screen-space `y`: a
/// three-element bubble sort that swaps only on strict inequality, so
/// vertices with equal `y` keep their input order.
pub open spec fn spec_sort3(v1: Vertex, v2: Vertex, v3: Vertex) -> (Vertex, Vertex, Vertex) {
    let (a, b) = if v2.transformed_position.y < v1.transformed_position.y {
        (v2, v1)
    } else {
        (v1, v2)
    };
    let (b2, c2) = if v3.transformed_position.y < b.transformed_position.y {
        (v3, b)
    } else {
        (b, v3)
    };
    let (a3, b3) = if b2.transformed_position.y < a.transformed_position.y {
        (b2, a)
    } else {
        (a, b2)
    };
    (a3, b3, c2)
}

/// Exec mirror of [`spec_sort3`].
pub fn sort3(v1: &Vertex, v2: &Vertex, v3: &Vertex) -> (r: (Vertex, Vertex, Vertex))
    ensures
        r == spec_sort3(*v1, *v2, *v3),
{
    let (a, b) = if v2.transformed_position.y < v1.transformed_position.y {
        (*v2, *v1)
    } else {
        (*v1, *v2)
    };
    let (b2, c2) = if v3.transformed_position.y < b.transformed_position.y {
        (*v3, b)
    } else {
        (b, *v3)
    };
    let (a3, b3) = if b2.transformed_position.y < a.transformed_position.y {
        (b2, a)
    } else {
        (a, b2)
    };
    (a3, b3, c2)
}

/// Twice the signed area spanned by the edges top->mid and top->bottom; the
/// pipeline's authoritative backface test examines its sign on the y-sorted
/// triple.
pub open spec fn spec_cross2(t: Vec3Fx, m: Vec3Fx, b: Vec3Fx) -> int {
    (m.x - t.x) * (b.y - t.y) - (m.y - t.y) * (b.x - t.x)
}

/// Whether the triangle is rejected as back-facing: the signed area of its
/// y-sorted triple is zero or negative.
pub open spec fn spec_culled(v1: Vertex, v2: Vertex, v3: Vertex) -> bool {
    let s = spec_sort3(v1, v2, v3);
    spec_cross2(s.0.transformed_position, s.1.transformed_position,
        s.2.transformed_position) <= 0
}

/// Law: the backface test is a function of winding alone. Swapping any two
/// vertices of the examined triple negates the signed area, so whenever the
/// area is nonzero, the swap toggles cull into accept and back.
pub proof fn lemma_winding_flip(t: Vec3Fx, m: Vec3Fx, b: Vec3Fx)
    ensures
        spec_cross2(m, t, b) == -spec_cross2(t, m, b),
        spec_cross2(t, b, m) == -spec_cross2(t, m, b),
        spec_cross2(b, m, t) == -spec_cross2(t, m, b),
        spec_cross2(t, m, b) != 0 ==> ((spec_cross2(t, m, b) <= 0) != (spec_cross2(m, t, b)
            <= 0)),
{
    let tx = t.x as int;
    let ty = t.y as int;
    let mx = m.x as int;
    let my = m.y as int;
    let bx = b.x as int;
    let by = b.y as int;
    assert((tx - mx) * (by - my) - (ty - my) * (bx - mx) == -((mx - tx) * (by - ty) - (my - ty)
        * (bx - tx))) by (nonlinear_arith);
    assert((bx - tx) * (my - ty) - (by - ty) * (mx - tx) == -((mx - tx) * (by - ty) - (my - ty)
        * (bx - tx))) by (nonlinear_arith);
    assert((mx - bx) * (ty - by) - (my - by) * (tx - bx) == -((mx - tx) * (by - ty) - (my - ty)
        * (bx - tx))) by (nonlinear_arith);
}

/// Whether a scanline at height `yf` crosses the edge `va -> vb`: the edge
/// is not near-horizontal and `yf` lies within its half-open y-range.
pub open spec fn spec_edge_hit(va: Vec3Fx, vb: Vec3Fx, yf: int) -> bool {
    let y1 = va.y as int;
    let y2 = vb.y as int;
    &&& (if y2 - y1 >= 0 {
        y2 - y1
    } else {
        y1 - y2
    }) >= EDGE_EPS as int
    &&& ((yf >= y1 && yf < y2) || (yf >= y2 && yf < y1))
}

/// The x-coordinate where the scanline at `yf` crosses the edge `va -> vb`,
/// by linear interpolation on y.
pub open spec fn spec_edge_x(va: Vec3Fx, vb: Vec3Fx, yf: int) -> int {
    let t = spec_fx_div(yf - va.y, (vb.y - va.y) as int);
    spec_clamp(va.x + spec_fx_mul(t, (vb.x - va.x) as int))
}

/// Whether the scanline at `yf` crosses at least two of the triangle's
/// three edges (taken cyclically on the sorted triple).
pub open spec fn spec_span_hit(s0: Vec3Fx, s1: Vec3Fx, s2: Vec3Fx, yf: int) -> bool {
    let h0 = spec_edge_hit(s0, s1, yf);
    let h1 = spec_edge_hit(s1, s2, yf);
    let h2 = spec_edge_hit(s2, s0, yf);
    (h0 && h1) || (h0 && h2) || (h1 && h2)
}

/// The first of the two edge intersections, in edge order.
pub open spec fn spec_span_a(s0: Vec3Fx, s1: Vec3Fx, s2: Vec3Fx, yf: int) -> int {
    let h0 = spec_edge_hit(s0, s1, yf);
    let h1 = spec_edge_hit(s1, s2, yf);
    if h0 {
        spec_edge_x(s0, s1, yf)
    } else if h1 {
        spec_edge_x(s1, s2, yf)
    } else {
        spec_edge_x(s2, s0, yf)
    }
}

/// The second of the two edge intersections, in edge order.
pub open spec fn spec_span_b(s0: Vec3Fx, s1: Vec3Fx, s2: Vec3Fx, yf: int) -> int {
    let h0 = spec_edge_hit(s0, s1, yf);
    let h1 = spec_edge_hit(s1, s2, yf);
    if h0 && h1 {
        spec_edge_x(s1, s2, yf)
    } else {
        spec_edge_x(s2, s0, yf)
    }
}

/// Exec mirror of one edge test: the hit flag and, when hit, the crossing x.
fn edge_cross(va: &Vec3Fx, vb: &Vec3Fx, yf: i64) -> (r: (bool, i64))
    requires
        vec3_ok(*va),
        vec3_ok(*vb),
        fx_ok_pad(yf as int),
    ensures
        r.0 == spec_edge_hit(*va, *vb, yf as int),
        r.0 ==> r.1 == spec_edge_x(*va, *vb, yf as int),
        crate::fixed::fx_ok(r.1 as int),
{
    let y1 = va.y;
    let y2 = vb.y;
    let dy = y2 - y1;
    let ady = if dy >= 0 {
        dy
    } else {
        -dy
    };
    if ady < EDGE_EPS {
        return (false, 0);
    }
    if (yf >= y1 && yf < y2) || (yf >= y2 && yf < y1) {
        let t = fx_div(yf - y1, dy);
        let x = fx_clamp(va.x + fx_mul(t, vb.x - va.x));
        (true, x)
    } else {
        (false, 0)
    }
}

/// A maybe-fragment as a zero- or one-element sequence.
pub open spec fn opt_seq(o: Option<Fragment>) -> Seq<Fragment> {
    match o {
        Some(f) => seq![f],
        None => Seq::empty(),
    }
}

/// The fragments one scanline emits over pixels `x ..= x_hi`, left to right:
/// each pixel center is confirmed by the exact barycentric test.
pub open spec fn spec_row(
    v1: Vertex,
    v2: Vertex,
    v3: Vertex,
    light: Light,
    y: int,
    x: int,
    x_hi: int,
) -> Seq<Fragment>
    decreases x_hi + 1 - x,
{
    if x > x_hi {
        Seq::empty()
    } else {
        opt_seq(
            spec_frag_at(v1, v2, v3, light, x * (FX_ONE as int) + FX_HALF as int, y * (
            FX_ONE as int) + FX_HALF as int),
        ) + spec_row(v1, v2, v3, light, y, x + 1, x_hi)
    }
}

/// The fragments of the scanline through pixel row `y`: none unless the
/// scanline crosses two edges, else the pixels between the two crossings
/// (floor to ceiling, covering partial pixels).
pub open spec fn spec_scanline(
    v1: Vertex,
    v2: Vertex,
    v3: Vertex,
    light: Light,
    s0: Vec3Fx,
    s1: Vec3Fx,
    s2: Vec3Fx,
    y: int,
) -> Seq<Fragment> {
    let yf = y * (FX_ONE as int) + FX_HALF as int;
    if spec_span_hit(s0, s1, s2, yf) {
        let xa = spec_span_a(s0, s1, s2, yf);
        let xb = spec_span_b(s0, s1, s2, yf);
        let xmin = if xa <= xb {
            xa
        } else {
            xb
        };
        let xmax = if xa <= xb {
            xb
        } else {
            xa
        };
        spec_row(v1, v2, v3, light, y, spec_fx_floor(xmin), spec_fx_ceil(xmax))
    } else {
        Seq::empty()
    }
}

/// All scanlines from row `y` through row `y_hi`, top to bottom.
pub open spec fn spec_rows(
    v1: Vertex,
    v2: Vertex,
    v3: Vertex,
    light: Light,
    s0: Vec3Fx,
    s1: Vec3Fx,
    s2: Vec3Fx,
    y: int,
    y_hi: int,
) -> Seq<Fragment>
    decreases y_hi + 1 - y,
{
    if y > y_hi {
        Seq::empty()
    } else {
        spec_scanline(v1, v2, v3, light, s0, s1, s2, y) + spec_rows(v1, v2, v3, light, s0, s1,
            s2, y + 1, y_hi)
    }
}

/// Every fragment the rasterizer emits for this triangle and light: empty
/// when the y-sorted triple is back-facing, else all scanlines between the
/// top vertex's floor and the bottom vertex's ceiling.
pub open spec fn spec_triangle(v1: Vertex, v2: Vertex, v3: Vertex, light: Light) -> Seq<
    Fragment,
> {
    let s = spec_sort3(v1, v2, v3);
    let st = s.0.transformed_position;
    let sm = s.1.transformed_position;
    let sb = s.2.transformed_position;
    if spec_culled(v1, v2, v3) {
        Seq::empty()
    } else {
        spec_rows(v1, v2, v3, light, st, sm, sb, spec_fx_floor(st.y as int), spec_fx_ceil(
            sb.y as int))
    }
}

/// Law: the backface test is authoritative. A culled triple yields no
/// fragment at all; with [`lemma_winding_flip`], swapping two vertices of
/// the y-sorted triple the test examines toggles this whenever the signed
/// area is nonzero.
pub proof fn lemma_culled_emits_nothing(v1: Vertex, v2: Vertex, v3: Vertex, light: Light)
    ensures
        spec_culled(v1, v2, v3) ==> spec_triangle(v1, v2, v3, light) == Seq::<Fragment>::empty(),
{
}

/// Every fragment a scanline row emits has in-band attributes.
proof fn lemma_spec_row_ok(
    v1: Vertex,
    v2: Vertex,
    v3: Vertex,
    light: Light,
    y: int,
    x: int,
    x_hi: int,
)
    ensures
        forall|j: int|
            0 <= j < spec_row(v1, v2, v3, light, y, x, x_hi).len() ==> crate::vertex::frag_ok(
                #[trigger] spec_row(v1, v2, v3, light, y, x, x_hi)[j]),
    decreases x_hi + 1 - x,
{
    assert(forall|a: int| crate::fixed::fx_ok(#[trigger] cfx(a) as int));
    if x > x_hi {
    } else {
        lemma_spec_row_ok(v1, v2, v3, light, y, x + 1, x_hi);
        let px = x * (FX_ONE as int) + FX_HALF as int;
        let py = y * (FX_ONE as int) + FX_HALF as int;
        let head = opt_seq(spec_frag_at(v1, v2, v3, light, px, py));
        let tail = spec_row(v1, v2, v3, light, y, x + 1, x_hi);
        assert(spec_row(v1, v2, v3, light, y, x, x_hi) == head + tail);
        assert forall|j: int| 0 <= j < (head + tail).len() implies crate::vertex::frag_ok(
            (head + tail)[j]) by {
            if j < head.len() {
                assert((head + tail)[j] == spec_frag(v1, v2, v3, light, px, py));
            } else {
                assert((head + tail)[j] == tail[j - head.len()]);
            }
        }
    }
}

/// Every fragment any block of scanlines emits has in-band attributes.
proof fn lemma_spec_rows_ok(
    v1: Vertex,
    v2: Vertex,
    v3: Vertex,
    light: Light,
    s0: Vec3Fx,
    s1: Vec3Fx,
    s2: Vec3Fx,
    y: int,
    y_hi: int,
)
    ensures
        forall|j: int|
            0 <= j < spec_rows(v1, v2, v3, light, s0, s1, s2, y, y_hi).len()
                ==> crate::vertex::frag_ok(#[trigger] spec_rows(v1, v2, v3, light, s0, s1, s2,
                y, y_hi)[j]),
    decreases y_hi + 1 - y,
{
    if y > y_hi {
    } else {
        let yf = y * (FX_ONE as int) + FX_HALF as int;
        if spec_span_hit(s0, s1, s2, yf) {
            let xa = spec_span_a(s0, s1, s2, yf);
            let xb = spec_span_b(s0, s1, s2, yf);
            let xmin = if xa <= xb {
                xa
            } else {
                xb
            };
            let xmax = if xa <= xb {
                xb
            } else {
                xa
            };
            lemma_spec_row_ok(v1, v2, v3, light, y, spec_fx_floor(xmin), spec_fx_ceil(xmax));
        }
        lemma_spec_rows_ok(v1, v2, v3, light, s0, s1, s2, y + 1, y_hi);
        let head = spec_scanline(v1, v2, v3, light, s0, s1, s2, y);
        let tail = spec_rows(v1, v2, v3, light, s0, s1, s2, y + 1, y_hi);
        assert(spec_rows(v1, v2, v3, light, s0, s1, s2, y, y_hi) == head + tail);
        assert forall|j: int| 0 <= j < (head + tail).len() implies crate::vertex::frag_ok(
            (head + tail)[j]) by {
            if j < head.len() {
                assert((head + tail)[j] == head[j]);
            } else {
                assert((head + tail)[j] == tail[j - head.len()]);
            }
        }
    }
}

/// Every fragment the rasterizer emits has in-band attributes, so later
/// stages can interpolate and shade it without leaving the band.
pub proof fn lemma_spec_triangle_ok(v1: Vertex, v2: Vertex, v3: Vertex, light: Light)
    ensures
        forall|j: int|
            0 <= j < spec_triangle(v1, v2, v3, light).len() ==> crate::vertex::frag_ok(
                #[trigger] spec_triangle(v1, v2, v3, light)[j]),
{
    let s = spec_sort3(v1, v2, v3);
    let st = s.0.transformed_position;
    let sm = s.1.transformed_position;
    let sb = s.2.transformed_position;
    if !spec_culled(v1, v2, v3) {
        lemma_spec_rows_ok(v1, v2, v3, light, st, sm, sb, spec_fx_floor(st.y as int),
            spec_fx_ceil(sb.y as int));
    }
}

/// A fragment the rasterizer may emit for this triangle: its stored pixel
/// center passes the exact barycentric test against the unsorted vertex
/// triple, and every attribute is the interpolation [`spec_frag`] assigns
/// at that sample. With [`lemma_weights_unity`], its three barycentric
/// weights each lie in [0, 1] and sum to exactly one.
pub open spec fn frag_emitted(v1: Vertex, v2: Vertex, v3: Vertex, light: Light, f: Fragment)
    -> bool {
    &&& bary_accept(v1.transformed_position, v2.transformed_position,
        v3.transformed_position, f.x as int, f.y as int)
    &&& f == spec_frag(v1, v2, v3, light, f.x as int, f.y as int)
}

proof fn lemma_spec_row_emitted(
    v1: Vertex,
    v2: Vertex,
    v3: Vertex,
    light: Light,
    y: int,
    x: int,
    x_hi: int,
)
    requires
        -0x2000_0000 <= x,
        x_hi <= 0x2000_0000,
        -0x2000_0000 <= y <= 0x2000_0000,
    ensures
        forall|j: int|
            0 <= j < spec_row(v1, v2, v3, light, y, x, x_hi).len() ==> frag_emitted(v1, v2, v3,
                light, #[trigger] spec_row(v1, v2, v3, light, y, x, x_hi)[j]),
    decreases x_hi + 1 - x,
{
    if x > x_hi {
    } else {
        lemma_spec_row_emitted(v1, v2, v3, light, y, x + 1, x_hi);
        let px = x * (FX_ONE as int) + FX_HALF as int;
        let py = y * (FX_ONE as int) + FX_HALF as int;
        let head = opt_seq(spec_frag_at(v1, v2, v3, light, px, py));
        let tail = spec_row(v1, v2, v3, light, y, x + 1, x_hi);
        assert(spec_row(v1, v2, v3, light, y, x, x_hi) == head + tail);
        assert forall|j: int| 0 <= j < (head + tail).len() implies frag_emitted(v1, v2, v3,
            light, (head + tail)[j]) by {
            if j < head.len() {
                let f = spec_frag(v1, v2, v3, light, px, py);
                assert((head + tail)[j] == f);
                assert(f.x == px as i64 && f.y == py as i64);
            } else {
                assert((head + tail)[j] == tail[j - head.len()]);
            }
        }
    }
}

proof fn lemma_spec_rows_emitted(
    v1: Vertex,
    v2: Vertex,
    v3: Vertex,
    light: Light,
    s0: Vec3Fx,
    s1: Vec3Fx,
    s2: Vec3Fx,
    y: int,
    y_hi: int,
)
    requires
        vec3_ok(s0),
        vec3_ok(s1),
        vec3_ok(s2),
        -0x2000_0000 <= y,
        y_hi <= 0x2000_0000,
    ensures
        forall|j: int|
            0 <= j < spec_rows(v1, v2, v3, light, s0, s1, s2, y, y_hi).len() ==> frag_emitted(
                v1, v2, v3, light, #[trigger] spec_rows(v1, v2, v3, light, s0, s1, s2, y,
                y_hi)[j]),
    decreases y_hi + 1 - y,
{
    if y > y_hi {
    } else {
        let yf = y * (FX_ONE as int) + FX_HALF as int;
        if spec_span_hit(s0, s1, s2, yf) {
            let xa = spec_span_a(s0, s1, s2, yf);
            let xb = spec_span_b(s0, s1, s2, yf);
            let xmin = if xa <= xb {
                xa
            } else {
                xb
            };
            let xmax = if xa <= xb {
                xb
            } else {
                xa
            };
            assert(crate::fixed::fx_ok(xmin) && crate::fixed::fx_ok(xmax));
            crate::fixed::lemma_fx_floor_range(xmin);
            crate::fixed::lemma_fx_ceil_range(xmax);
            lemma_spec_row_emitted(v1, v2, v3, light, y, spec_fx_floor(xmin), spec_fx_ceil(
                xmax));
        }
        lemma_spec_rows_emitted(v1, v2, v3, light, s0, s1, s2, y + 1, y_hi);
        let head = spec_scanline(v1, v2, v3, light, s0, s1, s2, y);
        let tail = spec_rows(v1, v2, v3, light, s0, s1, s2, y + 1, y_hi);
        assert(spec_rows(v1, v2, v3, light, s0, s1, s2, y, y_hi) == head + tail);
        assert forall|j: int| 0 <= j < (head + tail).len() implies frag_emitted(v1, v2, v3,
            light, (head + tail)[j]) by {
            if j < head.len() {
                assert((head + tail)[j] == head[j]);
            } else {
                assert((head + tail)[j] == tail[j - head.len()]);
            }
        }
    }
}

/// Law: no false-positive fragments. Every fragment the rasterizer emits
/// for a triangle sits at a pixel center that passes the exact barycentric
/// test against the unsorted vertex triple, with the attributes that sample
/// interpolates to — so, with [`lemma_weights_unity`], its barycentric
/// weights all lie in [0, 1] and sum to exactly one.
pub proof fn lemma_triangle_fragments_accepted(v1: Vertex, v2: Vertex, v3: Vertex, light: Light)
    requires
        vertex_ok(v1),
        vertex_ok(v2),
        vertex_ok(v3),
    ensures
        forall|j: int|
            0 <= j < spec_triangle(v1, v2, v3, light).len() ==> frag_emitted(v1, v2, v3, light,
                #[trigger] spec_triangle(v1, v2, v3, light)[j]),
{
    let s = spec_sort3(v1, v2, v3);
    let st = s.0.transformed_position;
    let sm = s.1.transformed_position;
    let sb = s.2.transformed_position;
    if !spec_culled(v1, v2, v3) {
        crate::fixed::lemma_fx_floor_range(st.y as int);
        crate::fixed::lemma_fx_ceil_range(sb.y as int);
        lemma_spec_rows_emitted(v1, v2, v3, light, st, sm, sb, spec_fx_floor(st.y as int),
            spec_fx_ceil(sb.y as int));
    }
}

/// Scanline rasterization of one triangle under one point light.
///
/// Sorts the vertices by screen y (stable), culls back-facing triples by
/// signed area, and walks scanlines top to bottom; within each scanline,
/// pixels between the two edge crossings are confirmed one by one with the
/// exact barycentric test, so no fragment outside the triangle is ever
/// emitted. Output is scanline-major, left to right.
#[verifier::loop_isolation(false)]
pub fn triangle(v1: &Vertex, v2: &Vertex, v3: &Vertex, light: &Light) -> (frags: Vec<Fragment>)
    requires
        vertex_ok(*v1),
        vertex_ok(*v2),
        vertex_ok(*v3),
        vec3_ok(light.position),
    ensures
        frags@ == spec_triangle(*v1, *v2, *v3, *light),
{
    let mut frags: Vec<Fragment> = Vec::new();
    let (t, m, b) = sort3(v1, v2, v3);
    let st = t.transformed_position;
    let sm = m.transformed_position;
    let sb = b.transformed_position;
    proof {
        lemma_mul_bound((sm.x - st.x) as int, (sb.y - st.y) as int, 0x8000_0000_0000int,
            0x8000_0000_0000int);
        lemma_mul_bound((sm.y - st.y) as int, (sb.x - st.x) as int, 0x8000_0000_0000int,
            0x8000_0000_0000int);
    }
    let cross: i128 = ((sm.x - st.x) as i128) * ((sb.y - st.y) as i128) - ((sm.y - st.y) as i128)
        * ((sb.x - st.x) as i128);
    if cross <= 0 {
        proof {
            assert(frags@ =~= spec_triangle(*v1, *v2, *v3, *light));
        }
        return frags;
    }
    let y_lo = crate::fixed::fx_floor(st.y);
    let y_hi = crate::fixed::fx_ceil(sb.y);
    let mut y = y_lo;
    while y <= y_hi
        invariant
            y_lo <= y <= y_hi + 1,
            frags@ + spec_rows(*v1, *v2, *v3, *light, st, sm, sb, y as int, y_hi as int)
                == spec_rows(*v1, *v2, *v3, *light, st, sm, sb, y_lo as int, y_hi as int),
        decreases y_hi + 1 - y,
    {
        let yf = y * FX_ONE + FX_HALF;
        let (h0, x0) = edge_cross(&st, &sm, yf);
        let (h1, x1) = edge_cross(&sm, &sb, yf);
        let (h2, x2) = edge_cross(&sb, &st, yf);
        let two = (h0 && h1) || (h0 && h2) || (h1 && h2);
        let ghost before_row = frags@;
        if two {
            let xa = if h0 {
                x0
            } else {
                x1
            };
            let xb = if h0 && h1 {
                x1
            } else {
                x2
            };
            proof {
                assert(xa == spec_span_a(st, sm, sb, yf as int));
                assert(xb == spec_span_b(st, sm, sb, yf as int));
            }
            let xmin = if xa <= xb {
                xa
            } else {
                xb
            };
            let xmax = if xa <= xb {
                xb
            } else {
                xa
            };
            let x_lo = crate::fixed::fx_floor(xmin);
            let x_hi = crate::fixed::fx_ceil(xmax);
            let mut x = x_lo;
            while x <= x_hi
                invariant
                    x_lo <= x <= x_hi + 1,
                    frags@ + spec_row(*v1, *v2, *v3, *light, y as int, x as int, x_hi as int)
                        == before_row + spec_row(*v1, *v2, *v3, *light, y as int, x_lo as int,
                        x_hi as int),
                decreases x_hi + 1 - x,
            {
                let px = x * FX_ONE + FX_HALF;
                let ghost pre = frags@;
                let f = frag_at(px, yf, v1, v2, v3, light);
                match f {
                    Some(fr) => frags.push(fr),
                    None => {},
                }
                proof {
                    assert(frags@ =~= pre + opt_seq(f));
                    assert(spec_row(*v1, *v2, *v3, *light, y as int, x as int, x_hi as int)
                        == opt_seq(f) + spec_row(*v1, *v2, *v3, *light, y as int, x as int + 1,
                        x_hi as int));
                    assert(frags@ + spec_row(*v1, *v2, *v3, *light, y as int, x as int + 1,
                        x_hi as int) =~= pre + spec_row(*v1, *v2, *v3, *light, y as int,
                        x as int, x_hi as int));
                }
                x = x + 1;
            }
            proof {
                assert(spec_row(*v1, *v2, *v3, *light, y as int, x as int, x_hi as int)
                    == Seq::<Fragment>::empty());
                assert(frags@ + Seq::<Fragment>::empty() =~= frags@);
                assert(spec_scanline(*v1, *v2, *v3, *light, st, sm, sb, y as int) == spec_row(
                    *v1, *v2, *v3, *light, y as int, x_lo as int, x_hi as int));
                assert(frags@ =~= before_row + spec_scanline(*v1, *v2, *v3, *light, st, sm, sb,
                    y as int));
            }
        } else {
            proof {
                assert(spec_scanline(*v1, *v2, *v3, *light, st, sm, sb, y as int)
                    == Seq::<Fragment>::empty());
                assert(frags@ =~= before_row + spec_scanline(*v1, *v2, *v3, *light, st, sm, sb,
                    y as int));
            }
        }
        proof {
            assert(spec_rows(*v1, *v2, *v3, *light, st, sm, sb, y as int, y_hi as int)
                == spec_scanline(*v1, *v2, *v3, *light, st, sm, sb, y as int) + spec_rows(*v1,
                *v2, *v3, *light, st, sm, sb, y as int + 1, y_hi as int));
            assert(frags@ + spec_rows(*v1, *v2, *v3, *light, st, sm, sb, y as int + 1,
                y_hi as int) =~= before_row + spec_rows(*v1, *v2, *v3, *light, st, sm, sb,
                y as int, y_hi as int));
        }
        y = y + 1;
    }
    proof {
        assert(spec_rows(*v1, *v2, *v3, *light, st, sm, sb, y as int, y_hi as int)
            == Seq::<Fragment>::empty());
        assert(frags@ + Seq::<Fragment>::empty() =~= frags@);
    }
    frags
}

} // verus!
