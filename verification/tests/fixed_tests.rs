use softrender::fixed::{fx_ceil, fx_div, fx_floor, fx_mul, isqrt, psin, FX_ONE, WAVE_PERIOD};

#[test]
fn fx_mul_exact() {
    assert_eq!(fx_mul(3 * FX_ONE, 2 * FX_ONE), 6 * FX_ONE);
    assert_eq!(fx_mul(FX_ONE / 2, FX_ONE / 2), FX_ONE / 4);
    assert_eq!(fx_mul(-3 * FX_ONE, 2 * FX_ONE), -6 * FX_ONE);
}

#[test]
fn fx_div_exact() {
    assert_eq!(fx_div(6 * FX_ONE, 2 * FX_ONE), 3 * FX_ONE);
    assert_eq!(fx_div(FX_ONE, 2 * FX_ONE), FX_ONE / 2);
    assert_eq!(fx_div(-FX_ONE, 2 * FX_ONE), -FX_ONE / 2);
}

#[test]
fn floor_and_ceil() {
    assert_eq!(fx_floor(3 * FX_ONE + 1), 3);
    assert_eq!(fx_floor(-1), -1);
    assert_eq!(fx_floor(-FX_ONE), -1);
    assert_eq!(fx_ceil(3 * FX_ONE + 1), 4);
    assert_eq!(fx_ceil(-1), 0);
    assert_eq!(fx_ceil(-FX_ONE), -1);
    assert_eq!(fx_ceil(2 * FX_ONE), 2);
}

#[test]
fn wave_known_points() {
    assert_eq!(psin(0), 0);
    assert_eq!(psin(FX_ONE), FX_ONE);
    assert_eq!(psin(2 * FX_ONE), 0);
    assert_eq!(psin(3 * FX_ONE), -FX_ONE);
    assert_eq!(psin(-FX_ONE), -FX_ONE);
}

#[test]
fn wave_is_periodic() {
    for a in [0i64, 1, -5, 123456, -98765, 7 * FX_ONE + 13] {
        assert_eq!(psin(a + WAVE_PERIOD), psin(a));
    }
}

#[test]
fn isqrt_exact() {
    assert_eq!(isqrt(0), 0);
    assert_eq!(isqrt(1), 1);
    assert_eq!(isqrt(10), 3);
    assert_eq!(isqrt(144), 12);
    assert_eq!(isqrt((1u128 << 32) * (1u128 << 32)), 1u128 << 32);
    assert_eq!(isqrt(u128::from(u64::MAX)), 4294967295);
}
