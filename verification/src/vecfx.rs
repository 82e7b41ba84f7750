//! Fixed-point vectors and 4x4 matrices.
//!
//! Matrices are stored column-major: entry `m0` is row 0 of column 0, `m4`
//! is row 0 of column 1, and so on, so a matrix-vector product takes row `i`
//! from entries `i`, `i + 4`, `i + 8`, `i + 12`.

use vstd::prelude::*;
use crate::fixed::{fx_ok, spec_clamp, spec_isqrt, tdiv, isqrt, FX_BIG, FX_ONE};

verus! {

/// A 3-component fixed-point vector.
#[derive(Debug, Clone, Copy, PartialEq, Eq, Structural)]
pub struct Vec3Fx {
    pub x: i64,
    pub y: i64,
    pub z: i64,
}

/// A 4-component (homogeneous) fixed-point vector.
#[derive(Debug, Clone, Copy, PartialEq, Eq, Structural)]
pub struct Vec4Fx {
    pub x: i64,
    pub y: i64,
    pub z: i64,
    pub w: i64,
}

/// A 4x4 fixed-point matrix, column-major.
#[derive(Debug, Clone, Copy, PartialEq, Eq, Structural)]
pub struct Mat4Fx {
    pub m0: i64,
    pub m1: i64,
    pub m2: i64,
    pub m3: i64,
    pub m4: i64,
    pub m5: i64,
    pub m6: i64,
    pub m7: i64,
    pub m8: i64,
    pub m9: i64,
    pub m10: i64,
    pub m11: i64,
    pub m12: i64,
    pub m13: i64,
    pub m14: i64,
    pub m15: i64,
}

pub open spec fn vec3_ok(v: Vec3Fx) -> bool {
    fx_ok(v.x as int) && fx_ok(v.y as int) && fx_ok(v.z as int)
}

pub open spec fn vec4_ok(v: Vec4Fx) -> bool {
    fx_ok(v.x as int) && fx_ok(v.y as int) && fx_ok(v.z as int) && fx_ok(v.w as int)
}

pub open spec fn mat_ok(m: Mat4Fx) -> bool {
    fx_ok(m.m0 as int) && fx_ok(m.m1 as int) && fx_ok(m.m2 as int) && fx_ok(m.m3 as int)
        && fx_ok(m.m4 as int) && fx_ok(m.m5 as int) && fx_ok(m.m6 as int) && fx_ok(m.m7 as int)
        && fx_ok(m.m8 as int) && fx_ok(m.m9 as int) && fx_ok(m.m10 as int) && fx_ok(m.m11 as int)
        && fx_ok(m.m12 as int) && fx_ok(m.m13 as int) && fx_ok(m.m14 as int)
        && fx_ok(m.m15 as int)
}

/// Fixed-point scalar product of two triples: `sum(a_i * b_i) / FX_ONE`,
/// clamped. Also the form every barycentric interpolation takes.
pub open spec fn spec_dot3(a0: int, a1: int, a2: int, b0: int, b1: int, b2: int) -> int {
    spec_clamp(tdiv(a0 * b0 + a1 * b1 + a2 * b2, FX_ONE as int))
}

/// Fixed-point scalar product of two quadruples, clamped.
pub open spec fn spec_dot4(
    a0: int,
    a1: int,
    a2: int,
    a3: int,
    b: (int, int, int, int),
) -> int {
    spec_clamp(tdiv(a0 * b.0 + a1 * b.1 + a2 * b.2 + a3 * b.3, FX_ONE as int))
}

/// Row `i` of `m * v` for a homogeneous vector `v`, as (x, y, z, w).
pub open spec fn spec_mat_vec(m: Mat4Fx, v: (int, int, int, int)) -> (int, int, int, int) {
    (
        spec_dot4(m.m0 as int, m.m4 as int, m.m8 as int, m.m12 as int, v),
        spec_dot4(m.m1 as int, m.m5 as int, m.m9 as int, m.m13 as int, v),
        spec_dot4(m.m2 as int, m.m6 as int, m.m10 as int, m.m14 as int, v),
        spec_dot4(m.m3 as int, m.m7 as int, m.m11 as int, m.m15 as int, v),
    )
}

/// Euclidean length of a fixed-point vector, clamped.
pub open spec fn spec_len3(v: Vec3Fx) -> int {
    spec_clamp(
        spec_isqrt((v.x as int * v.x as int + v.y as int * v.y as int + v.z as int * v.z as int)
            as nat) as int,
    )
}

/// Products of values within the representable band stay within `i128`.
proof fn lemma_band_mul(a: int, b: int)
    requires
        fx_ok(a),
        fx_ok(b),
    ensures
        -(0x2000_0000_0000int * 0x2000_0000_0000int) <= a * b,
        a * b <= 0x2000_0000_0000int * 0x2000_0000_0000int,
{
    crate::fixed::lemma_mul_bound(a, b, 0x2000_0000_0000int, 0x2000_0000_0000int);
}

/// Fixed-point dot product of two in-band triples.
pub fn dot3_clamped(a0: i64, a1: i64, a2: i64, b0: i64, b1: i64, b2: i64) -> (r: i64)
    requires
        fx_ok(a0 as int),
        fx_ok(a1 as int),
        fx_ok(a2 as int),
        fx_ok(b0 as int),
        fx_ok(b1 as int),
        fx_ok(b2 as int),
    ensures
        r == spec_dot3(a0 as int, a1 as int, a2 as int, b0 as int, b1 as int, b2 as int),
        fx_ok(r as int),
{
    proof {
        lemma_band_mul(a0 as int, b0 as int);
        lemma_band_mul(a1 as int, b1 as int);
        lemma_band_mul(a2 as int, b2 as int);
    }
    let s: i128 = (a0 as i128) * (b0 as i128) + (a1 as i128) * (b1 as i128) + (a2 as i128)
        * (b2 as i128);
    let q: i128 = s / (FX_ONE as i128);
    proof {
        crate::fixed::lemma_tdiv_bound(s as int, FX_ONE as int);
    }
    if q < -(FX_BIG as i128) {
        -FX_BIG
    } else if q > FX_BIG as i128 {
        FX_BIG
    } else {
        q as i64
    }
}

/// Fixed-point dot product of two in-band quadruples.
pub fn dot4_clamped(
    a0: i64,
    a1: i64,
    a2: i64,
    a3: i64,
    b0: i64,
    b1: i64,
    b2: i64,
    b3: i64,
) -> (r: i64)
    requires
        fx_ok(a0 as int),
        fx_ok(a1 as int),
        fx_ok(a2 as int),
        fx_ok(a3 as int),
        fx_ok(b0 as int),
        fx_ok(b1 as int),
        fx_ok(b2 as int),
        fx_ok(b3 as int),
    ensures
        r == spec_dot4(
            a0 as int,
            a1 as int,
            a2 as int,
            a3 as int,
            (b0 as int, b1 as int, b2 as int, b3 as int),
        ),
        fx_ok(r as int),
{
    proof {
        lemma_band_mul(a0 as int, b0 as int);
        lemma_band_mul(a1 as int, b1 as int);
        lemma_band_mul(a2 as int, b2 as int);
        lemma_band_mul(a3 as int, b3 as int);
    }
    let s: i128 = (a0 as i128) * (b0 as i128) + (a1 as i128) * (b1 as i128) + (a2 as i128)
        * (b2 as i128) + (a3 as i128) * (b3 as i128);
    let q: i128 = s / (FX_ONE as i128);
    proof {
        crate::fixed::lemma_tdiv_bound(s as int, FX_ONE as int);
    }
    if q < -(FX_BIG as i128) {
        -FX_BIG
    } else if q > FX_BIG as i128 {
        FX_BIG
    } else {
        q as i64
    }
}

impl Mat4Fx {
    /// The identity transform.
    pub fn identity() -> (m: Mat4Fx)
        ensures
            m == Mat4Fx::spec_identity(),
            mat_ok(m),
    {
        Mat4Fx {
            m0: FX_ONE, m1: 0, m2: 0, m3: 0,
            m4: 0, m5: FX_ONE, m6: 0, m7: 0,
            m8: 0, m9: 0, m10: FX_ONE, m11: 0,
            m12: 0, m13: 0, m14: 0, m15: FX_ONE,
        }
    }

    pub open spec fn spec_identity() -> Mat4Fx {
        Mat4Fx {
            m0: FX_ONE, m1: 0, m2: 0, m3: 0,
            m4: 0, m5: FX_ONE, m6: 0, m7: 0,
            m8: 0, m9: 0, m10: FX_ONE, m11: 0,
            m12: 0, m13: 0, m14: 0, m15: FX_ONE,
        }
    }

    /// Applies the matrix to a homogeneous vector.
    pub fn mul_vec4(&self, v: &Vec4Fx) -> (r: Vec4Fx)
        requires
            mat_ok(*self),
            vec4_ok(*v),
        ensures
            r.x == spec_mat_vec(*self, (v.x as int, v.y as int, v.z as int, v.w as int)).0,
            r.y == spec_mat_vec(*self, (v.x as int, v.y as int, v.z as int, v.w as int)).1,
            r.z == spec_mat_vec(*self, (v.x as int, v.y as int, v.z as int, v.w as int)).2,
            r.w == spec_mat_vec(*self, (v.x as int, v.y as int, v.z as int, v.w as int)).3,
            vec4_ok(r),
    {
        Vec4Fx {
            x: dot4_clamped(self.m0, self.m4, self.m8, self.m12, v.x, v.y, v.z, v.w),
            y: dot4_clamped(self.m1, self.m5, self.m9, self.m13, v.x, v.y, v.z, v.w),
            z: dot4_clamped(self.m2, self.m6, self.m10, self.m14, v.x, v.y, v.z, v.w),
            w: dot4_clamped(self.m3, self.m7, self.m11, self.m15, v.x, v.y, v.z, v.w),
        }
    }
}

impl Vec3Fx {
    /// Builds a vector, clamping each component into the representable band.
    pub fn new(x: i64, y: i64, z: i64) -> (v: Vec3Fx)
        ensures
            v.x == spec_clamp(x as int),
            v.y == spec_clamp(y as int),
            v.z == spec_clamp(z as int),
            vec3_ok(v),
    {
        Vec3Fx {
            x: crate::fixed::fx_clamp(x),
            y: crate::fixed::fx_clamp(y),
            z: crate::fixed::fx_clamp(z),
        }
    }

    /// The zero vector.
    pub fn zero() -> (v: Vec3Fx)
        ensures
            v == Vec3Fx::spec_zero(),
            vec3_ok(v),
    {
        Vec3Fx { x: 0, y: 0, z: 0 }
    }

    pub open spec fn spec_zero() -> Vec3Fx {
        Vec3Fx { x: 0i64, y: 0i64, z: 0i64 }
    }

    /// Euclidean length in fixed-point units.
    pub fn len(&self) -> (r: i64)
        requires
            vec3_ok(*self),
        ensures
            r == spec_len3(*self),
            0 <= r,
            fx_ok(r as int),
    {
        proof {
            lemma_band_mul(self.x as int, self.x as int);
            lemma_band_mul(self.y as int, self.y as int);
            lemma_band_mul(self.z as int, self.z as int);
            crate::fixed::lemma_square_nonneg(self.x as int);
            crate::fixed::lemma_square_nonneg(self.y as int);
            crate::fixed::lemma_square_nonneg(self.z as int);
        }
        let s: i128 = (self.x as i128) * (self.x as i128) + (self.y as i128) * (self.y as i128)
            + (self.z as i128) * (self.z as i128);
        let r = isqrt(s as u128);
        if r > FX_BIG as u128 {
            FX_BIG
        } else {
            r as i64
        }
    }
}

} // verus!
