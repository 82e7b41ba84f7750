//! 16.16 fixed-point arithmetic on `i64`.
//!
//! A fixed-point value `x` stands for the real number `x / FX_ONE`. Every
//! operation clamps its result into `[-FX_BIG, FX_BIG]`, so the pipeline is
//! total: no input can make it overflow or trap. `FX_BIG` is far beyond any
//! screen or scene coordinate, so the clamp is inert on realistic data.

use vstd::prelude::*;
use vstd::arithmetic::div_mod::{
    lemma_div_is_ordered, lemma_div_pos_is_pos, lemma_fundamental_div_mod,
    lemma_fundamental_div_mod_converse_div, lemma_mod_division_less_than_divisor,
    lemma_mod_multiples_vanish,
};

verus! {

/// One whole unit in 16.16 fixed point.
pub const FX_ONE: i64 = 65536;

/// One half unit; pixel centers sit at `integer * FX_ONE + FX_HALF`.
pub const FX_HALF: i64 = 32768;

/// Magnitude bound kept by every fixed-point operation (2^45).
pub const FX_BIG: i64 = 0x2000_0000_0000;

/// Period of the procedural wave [`psin`], four whole units.
pub const WAVE_PERIOD: i64 = 262144;

/// Truncating (round-toward-zero) integer division, the semantics of `/` on
/// Rust's signed integers; the plain `/` on `int` is Euclidean instead.
pub open spec fn tdiv(a: int, b: int) -> int {
    if a >= 0 {
        a / b
    } else {
        -((-a) / b)
    }
}

/// Clamps into the representable band `[-FX_BIG, FX_BIG]`.
pub open spec fn spec_clamp(x: int) -> int {
    if x < -(FX_BIG as int) {
        -(FX_BIG as int)
    } else if x > FX_BIG as int {
        FX_BIG as int
    } else {
        x
    }
}

/// A value inside the representable band.
pub open spec fn fx_ok(x: int) -> bool {
    -(FX_BIG as int) <= x <= FX_BIG as int
}

/// A value at most one whole unit beyond the representable band; pixel
/// centers of in-band coordinates land here.
pub open spec fn fx_ok_pad(x: int) -> bool {
    -(FX_BIG as int) - FX_ONE as int <= x <= FX_BIG as int + FX_ONE as int
}

/// Fixed-point product: `a * b / FX_ONE`, truncated, then clamped.
pub open spec fn spec_fx_mul(a: int, b: int) -> int {
    spec_clamp(tdiv(a * b, FX_ONE as int))
}

/// Fixed-point quotient: `a * FX_ONE / b`, truncated, then clamped.
pub open spec fn spec_fx_div(a: int, b: int) -> int {
    spec_clamp(tdiv(a * (FX_ONE as int), b))
}

/// Largest integer at or below `a / FX_ONE` (the scanline pixel floor).
pub open spec fn spec_fx_floor(a: int) -> int {
    a / (FX_ONE as int)
}

/// Smallest integer at or above `a / FX_ONE`.
pub open spec fn spec_fx_ceil(a: int) -> int {
    -((-a) / (FX_ONE as int))
}

/// The triangular wave standing in for a sine: period [`WAVE_PERIOD`],
/// amplitude `FX_ONE`, rising through zero at phase zero.
pub open spec fn spec_psin(a: int) -> int {
    let m = a % (WAVE_PERIOD as int);
    if m <= FX_ONE as int {
        m
    } else if m <= 3 * (FX_ONE as int) {
        2 * (FX_ONE as int) - m
    } else {
        m - WAVE_PERIOD as int
    }
}

/// Multiplying values bounded by `m` and `n` stays within `m * n`.
pub proof fn lemma_mul_bound(a: int, b: int, m: int, n: int)
    requires
        -m <= a <= m,
        -n <= b <= n,
        0 <= m,
        0 <= n,
    ensures
        -(m * n) <= a * b <= m * n,
{
    assert(-(m * n) <= a * b <= m * n) by (nonlinear_arith)
        requires
            -m <= a <= m,
            -n <= b <= n,
            0 <= m,
            0 <= n,
    ;
}

/// A square is never negative.
pub proof fn lemma_square_nonneg(a: int)
    ensures
        0 <= a * a,
{
    assert(0 <= a * a) by (nonlinear_arith);
}

/// Truncating division never grows the magnitude of the dividend.
pub proof fn lemma_tdiv_bound(p: int, b: int)
    requires
        b != 0,
    ensures
        tdiv(p, b) <= (if p >= 0 { p } else { -p }),
        tdiv(p, b) >= (if p >= 0 { -p } else { p }),
{
    assert(p >= 0 ==> -p <= p / b <= p) by (nonlinear_arith)
        requires
            b != 0,
    ;
    assert(-p >= 0 ==> p <= -((-p) / b) <= -p) by (nonlinear_arith)
        requires
            b != 0,
    ;
}

pub fn fx_clamp(x: i64) -> (r: i64)
    ensures
        r == spec_clamp(x as int),
        fx_ok(r as int),
{
    if x < -FX_BIG {
        -FX_BIG
    } else if x > FX_BIG {
        FX_BIG
    } else {
        x
    }
}

pub fn fx_mul(a: i64, b: i64) -> (r: i64)
    ensures
        r == spec_fx_mul(a as int, b as int),
        fx_ok(r as int),
{
    proof {
        lemma_mul_bound(a as int, b as int, 0x8000_0000_0000_0000, 0x8000_0000_0000_0000);
    }
    let p: i128 = (a as i128) * (b as i128);
    let q: i128 = p / (FX_ONE as i128);
    proof {
        lemma_tdiv_bound(p as int, FX_ONE as int);
        assert(q == tdiv(a as int * b as int, FX_ONE as int));
    }
    if q < -(FX_BIG as i128) {
        -FX_BIG
    } else if q > FX_BIG as i128 {
        FX_BIG
    } else {
        q as i64
    }
}

pub fn fx_div(a: i64, b: i64) -> (r: i64)
    requires
        b != 0,
    ensures
        r == spec_fx_div(a as int, b as int),
        fx_ok(r as int),
{
    proof {
        lemma_mul_bound(a as int, FX_ONE as int, 0x8000_0000_0000_0000, 0x1_0000);
    }
    let p: i128 = (a as i128) * (FX_ONE as i128);
    let q: i128 = p / (b as i128);
    proof {
        lemma_tdiv_bound(p as int, b as int);
        assert(q == tdiv(a as int * FX_ONE as int, b as int));
    }
    if q < -(FX_BIG as i128) {
        -FX_BIG
    } else if q > FX_BIG as i128 {
        FX_BIG
    } else {
        q as i64
    }
}

pub fn fx_floor(a: i64) -> (r: i64)
    requires
        fx_ok(a as int),
    ensures
        r == spec_fx_floor(a as int),
        -0x2000_0000 <= r <= 0x2000_0000,
{
    if a >= 0 {
        proof {
            lemma_div_is_ordered(a as int, FX_BIG as int, FX_ONE as int);
            lemma_div_pos_is_pos(a as int, FX_ONE as int);
        }
        a / FX_ONE
    } else {
        let n = -a;
        let q = (n + FX_ONE - 1) / FX_ONE;
        proof {
            lemma_div_is_ordered(n as int + FX_ONE - 1, FX_BIG as int + FX_ONE - 1,
                FX_ONE as int);
            lemma_div_pos_is_pos(n as int + FX_ONE - 1, FX_ONE as int);
        }
        proof {
            lemma_fundamental_div_mod(n as int + FX_ONE - 1, FX_ONE as int);
            lemma_mod_division_less_than_divisor(n as int + FX_ONE - 1, FX_ONE as int);
            let s = (n as int + FX_ONE - 1) % (FX_ONE as int);
            assert(a as int == (-(q as int)) * (FX_ONE as int) + (FX_ONE - 1 - s));
            lemma_fundamental_div_mod_converse_div(
                a as int,
                FX_ONE as int,
                -(q as int),
                FX_ONE - 1 - s,
            );
        }
        -q
    }
}

pub fn fx_ceil(a: i64) -> (r: i64)
    requires
        fx_ok(a as int),
    ensures
        r == spec_fx_ceil(a as int),
        -0x2000_0000 <= r <= 0x2000_0000,
{
    let r = fx_floor(-a);
    -r
}

pub fn psin(a: i64) -> (r: i64)
    ensures
        r == spec_psin(a as int),
        -FX_ONE <= r <= FX_ONE,
{
    proof {
        lemma_mod_division_less_than_divisor(a as int, WAVE_PERIOD as int);
    }
    let m = match a.checked_rem_euclid(WAVE_PERIOD) {
        Some(m) => m,
        None => 0,
    };
    if m <= FX_ONE {
        m
    } else if m <= 3 * FX_ONE {
        2 * FX_ONE - m
    } else {
        m - WAVE_PERIOD
    }
}

/// The pixel floor of an in-band value lies within the pixel band.
pub proof fn lemma_fx_floor_range(a: int)
    requires
        fx_ok(a),
    ensures
        -0x2000_0000 <= spec_fx_floor(a) <= 0x2000_0000,
{
    lemma_div_is_ordered(-(FX_BIG as int), a, FX_ONE as int);
    lemma_div_is_ordered(a, FX_BIG as int, FX_ONE as int);
}

/// The pixel ceiling of an in-band value lies within the pixel band.
pub proof fn lemma_fx_ceil_range(a: int)
    requires
        fx_ok(a),
    ensures
        -0x2000_0000 <= spec_fx_ceil(a) <= 0x2000_0000,
{
    lemma_fx_floor_range(-a);
}

/// The wave repeats exactly: shifting the phase by one full period leaves
/// its value unchanged.
pub proof fn lemma_psin_periodic(a: int)
    ensures
        spec_psin(a + WAVE_PERIOD) == spec_psin(a),
{
    lemma_mod_multiples_vanish(1, a, WAVE_PERIOD as int);
}

/// The integer square root: the largest `r` with `r * r <= n`.
pub open spec fn spec_isqrt(n: nat) -> nat
    decreases n,
{
    if n == 0 {
        0
    } else {
        let p = spec_isqrt((n - 1) as nat);
        if (p + 1) * (p + 1) <= n {
            p + 1
        } else {
            p
        }
    }
}

/// [`spec_isqrt`] squares to at most its argument, and one more overshoots.
pub proof fn lemma_isqrt_bounds(n: nat)
    ensures
        spec_isqrt(n) * spec_isqrt(n) <= n,
        n < (spec_isqrt(n) + 1) * (spec_isqrt(n) + 1),
    decreases n,
{
    if n > 0 {
        lemma_isqrt_bounds((n - 1) as nat);
        let p = spec_isqrt((n - 1) as nat);
        if (p + 1) * (p + 1) <= n {
            assert(spec_isqrt(n) == p + 1);
            assert(n < (p + 2) * (p + 2)) by (nonlinear_arith)
                requires
                    n - 1 < (p + 1) * (p + 1),
                    0 <= p,
            ;
            assert((spec_isqrt(n) + 1) * (spec_isqrt(n) + 1) == (p + 2) * (p + 2));
        } else {
            assert(spec_isqrt(n) == p);
            assert(n < (p + 1) * (p + 1));
        }
    } else {
        assert(spec_isqrt(0) == 0);
        assert((spec_isqrt(n) + 1) * (spec_isqrt(n) + 1) == 1);
    }
}

/// Only one value squares at or below `n` while its successor overshoots.
pub proof fn lemma_isqrt_unique(n: nat, r: nat)
    requires
        r * r <= n,
        n < (r + 1) * (r + 1),
    ensures
        r == spec_isqrt(n),
{
    lemma_isqrt_bounds(n);
    let s = spec_isqrt(n);
    assert(r == s) by (nonlinear_arith)
        requires
            r * r <= n < (r + 1) * (r + 1),
            s * s <= n < (s + 1) * (s + 1),
            0 <= r,
            0 <= s,
    ;
}

/// Integer square root by bisection.
pub fn isqrt(n: u128) -> (r: u128)
    ensures
        r == spec_isqrt(n as nat),
        r * r <= n,
{
    if n == 0 {
        proof {
            lemma_isqrt_bounds(0);
        }
        return 0;
    }
    let mut lo: u128 = 0;
    let mut hi: u128 = 0x1_0000_0000_0000_0000;
    proof {
        assert((0x1_0000_0000_0000_0000int) * (0x1_0000_0000_0000_0000int) > u128::MAX);
    }
    while lo + 1 < hi
        invariant
            lo < hi,
            hi <= 0x1_0000_0000_0000_0000,
            (lo as nat) * (lo as nat) <= n as nat,
            (n as nat) < (hi as nat) * (hi as nat),
        decreases hi - lo,
    {
        let mid = lo + (hi - lo) / 2;
        proof {
            assert((mid as int) * (mid as int) <= (0xFFFF_FFFF_FFFF_FFFFint) * (0xFFFF_FFFF_FFFF_FFFFint))
                by (nonlinear_arith)
                requires
                    0 <= mid as int <= 0xFFFF_FFFF_FFFF_FFFFint,
            ;
        }
        if mid * mid <= n {
            lo = mid;
        } else {
            hi = mid;
        }
    }
    proof {
        assert(hi == lo + 1);
        lemma_isqrt_unique(n as nat, lo as nat);
    }
    lo
}

} // verus!
