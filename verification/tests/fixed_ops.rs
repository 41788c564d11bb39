use raytracer::fixed::{fx_add, fx_div, fx_max, fx_min, fx_mul, fx_sqrt, fx_sub, Fx, FX_MAX, FX_MIN, FX_ONE};
use raytracer::vec3::Vec3;

fn fx(raw: i64) -> Fx {
    Fx { raw }
}

#[test]
fn test_from_ratio_truncates_toward_zero() {
    assert_eq!(Fx::from_ratio(1, 10).raw, 429496729);
    assert_eq!(Fx::from_ratio(-1, 10).raw, -429496729);
    assert_eq!(Fx::from_ratio(3, 2).raw, 3 * FX_ONE / 2);
    assert_eq!(Fx::from_ratio(7, 1).raw, 7 * FX_ONE);
}

#[test]
fn test_mul_exact_and_truncated() {
    let three_halves = Fx::from_ratio(3, 2);
    assert_eq!(fx_mul(three_halves, three_halves).raw, 9663676416);
    let tenth = Fx::from_ratio(1, 10);
    assert_eq!(fx_mul(tenth, tenth).raw, 42949672);
    assert_eq!(fx_mul(fx(0), three_halves).raw, 0);
    assert_eq!(fx_mul(Fx::one(), three_halves), three_halves);
    assert_eq!(fx_mul(Fx::from_int(-2), three_halves), Fx::from_int(-3));
}

#[test]
fn test_mul_and_add_saturate() {
    assert_eq!(fx_mul(fx(FX_MAX), Fx::from_int(4)).raw, FX_MAX);
    assert_eq!(fx_mul(fx(FX_MAX), Fx::from_int(-4)).raw, FX_MIN);
    assert_eq!(fx_add(fx(FX_MAX), Fx::one()).raw, FX_MAX);
    assert_eq!(fx_sub(fx(FX_MIN), Fx::one()).raw, FX_MIN);
    assert_eq!(fx_add(fx(FX_MAX), fx(FX_MIN)).raw, -1);
}

#[test]
fn test_div_truncates_toward_zero() {
    assert_eq!(fx_div(Fx::from_int(1), Fx::from_int(2)).raw, FX_ONE / 2);
    assert_eq!(fx_div(Fx::from_int(-1), Fx::from_int(3)).raw, -1431655765);
    assert_eq!(fx_div(Fx::from_int(1), Fx::from_int(-3)).raw, -1431655765);
    assert_eq!(fx_div(Fx::from_int(-1), Fx::from_int(-3)).raw, 1431655765);
}

#[test]
fn test_sqrt_floor() {
    assert_eq!(fx_sqrt(Fx::from_int(4)), Fx::from_int(2));
    assert_eq!(fx_sqrt(Fx::from_int(2)).raw, 6074000999);
    assert_eq!(fx_sqrt(fx(0)).raw, 0);
    assert_eq!(fx_sqrt(Fx::one()), Fx::one());
}

#[test]
fn test_min_max() {
    assert_eq!(fx_min(fx(3), fx(-5)).raw, -5);
    assert_eq!(fx_max(fx(3), fx(-5)).raw, 3);
    assert_eq!(fx_max(fx(-7), fx(0)).raw, 0);
}

#[test]
fn test_vector_dot_and_unit() {
    let ez = Vec3 { x: fx(0), y: fx(0), z: Fx::one() };
    let ex = Vec3 { x: Fx::one(), y: fx(0), z: fx(0) };
    assert_eq!(ez.dot(&ez).raw, FX_ONE);
    assert_eq!(ez.dot(&ex).raw, 0);

    let long = Vec3 { x: fx(0), y: fx(0), z: Fx::from_int(5) };
    assert_eq!(long.unit(), ez);
    assert_eq!(Vec3::zero().unit(), Vec3::zero());

    let sum = ez.add(&ex);
    assert_eq!(sum.x.raw, FX_ONE);
    assert_eq!(sum.z.raw, FX_ONE);
    let h = sum.unit();
    // both components are 1/sqrt(2), truncated at the 32nd fractional bit
    assert_eq!(h.x, h.z);
    assert_eq!(h.x.raw, 3037000500);
}
