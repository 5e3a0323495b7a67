// Math utility tests

use predator_prey_sim::utils::fixed::{isqrt, Scalar};
use predator_prey_sim::utils::math::{
    clamp_position, distance, distance_squared, wrap_position, Vector2,
};

fn fx(value: f64) -> Scalar {
    Scalar::from_raw((value * 1e12).round() as i64)
}

fn to_f64(value: Scalar) -> f64 {
    value.raw() as f64 / 1e12
}

fn vec2(x: f64, y: f64) -> Vector2 {
    Vector2::new(fx(x), fx(y))
}

#[test]
fn test_vector_creation() {
    let v = vec2(3.0, 4.0);
    assert_eq!(v.x, fx(3.0));
    assert_eq!(v.y, fx(4.0));
}

#[test]
fn test_vector_zero() {
    let v = Vector2::zero();
    assert_eq!(v.x, fx(0.0));
    assert_eq!(v.y, fx(0.0));
}

#[test]
fn test_vector_magnitude() {
    let v = vec2(3.0, 4.0);
    assert_eq!(v.magnitude(), fx(5.0));
}

#[test]
fn test_vector_magnitude_squared() {
    let v = vec2(3.0, 4.0);
    assert_eq!(v.magnitude_squared(), fx(25.0));
}

#[test]
fn test_vector_normalize() {
    let v = vec2(3.0, 4.0);
    let normalized = v.normalize();
    assert!((to_f64(normalized.magnitude()) - 1.0).abs() < 1e-10);
}

#[test]
fn test_vector_scale() {
    let v = vec2(3.0, 4.0);
    let scaled = v.scale(fx(2.0));
    assert_eq!(scaled.x, fx(6.0));
    assert_eq!(scaled.y, fx(8.0));
}

#[test]
fn test_vector_limit() {
    let v = vec2(3.0, 4.0); // magnitude = 5.0
    let limited = v.limit(fx(3.0));
    assert!((to_f64(limited.magnitude()) - 3.0).abs() < 1e-10);

    let small = vec2(1.0, 1.0); // magnitude ~1.41
    let limited_small = small.limit(fx(3.0));
    assert_eq!(limited_small, small); // Should be unchanged
}

#[test]
fn test_vector_add() {
    let v1 = vec2(1.0, 2.0);
    let v2 = vec2(3.0, 4.0);
    let result = v1.add(&v2);
    assert_eq!(result.x, fx(4.0));
    assert_eq!(result.y, fx(6.0));
}

#[test]
fn test_vector_subtract() {
    let v1 = vec2(3.0, 4.0);
    let v2 = vec2(1.0, 2.0);
    let result = v1.subtract(&v2);
    assert_eq!(result.x, fx(2.0));
    assert_eq!(result.y, fx(2.0));
}

#[test]
fn test_vector_operators() {
    let v1 = vec2(1.0, 2.0);
    let v2 = vec2(3.0, 4.0);

    let sum = v1 + v2;
    assert_eq!(sum.x, fx(4.0));
    assert_eq!(sum.y, fx(6.0));

    let diff = v2 - v1;
    assert_eq!(diff.x, fx(2.0));
    assert_eq!(diff.y, fx(2.0));

    let scaled = v1 * fx(2.0);
    assert_eq!(scaled.x, fx(2.0));
    assert_eq!(scaled.y, fx(4.0));
}

#[test]
fn test_distance() {
    let p1 = vec2(0.0, 0.0);
    let p2 = vec2(3.0, 4.0);
    assert_eq!(distance(&p1, &p2), fx(5.0));
}

#[test]
fn test_distance_squared() {
    let p1 = vec2(0.0, 0.0);
    let p2 = vec2(3.0, 4.0);
    assert_eq!(distance_squared(&p1, &p2), fx(25.0));
}

#[test]
fn test_wrap_position() {
    let pos = vec2(-10.0, 50.0);
    let wrapped = wrap_position(pos, fx(100.0), fx(100.0));
    assert_eq!(wrapped.x, fx(90.0));
    assert_eq!(wrapped.y, fx(50.0));

    let pos = vec2(110.0, 150.0);
    let wrapped = wrap_position(pos, fx(100.0), fx(100.0));
    assert_eq!(wrapped.x, fx(10.0));
    assert_eq!(wrapped.y, fx(50.0));
}

#[test]
fn test_clamp_position() {
    let pos = vec2(-10.0, 50.0);
    let clamped = clamp_position(pos, fx(100.0), fx(100.0));
    assert_eq!(clamped.x, fx(0.0));
    assert_eq!(clamped.y, fx(50.0));

    let pos = vec2(110.0, 150.0);
    let clamped = clamp_position(pos, fx(100.0), fx(100.0));
    assert_eq!(clamped.x, fx(100.0));
    assert_eq!(clamped.y, fx(100.0));
}

#[test]
fn test_normalize_zero_vector_stays_zero() {
    assert_eq!(Vector2::zero().normalize(), Vector2::zero());
    assert_eq!(Vector2::zero().magnitude(), fx(0.0));
    assert_eq!(Vector2::zero().limit(fx(3.0)), Vector2::zero());
}

#[test]
fn test_normalize_exact() {
    assert_eq!(vec2(3.0, 4.0).normalize(), vec2(0.6, 0.8));
    assert_eq!(vec2(-8.0, 6.0).normalize(), vec2(-0.8, 0.6));
    assert_eq!(vec2(0.0, -0.001).normalize(), vec2(0.0, -1.0));
    // sqrt(2) rounds down to 1.414213562373, and 1 / that rounds toward zero.
    assert_eq!(vec2(1.0, 1.0).magnitude().raw(), 1_414_213_562_373);
    assert_eq!(vec2(1.0, 1.0).normalize().x.raw(), 707_106_781_186);
    assert_eq!(vec2(-1.0, 1.0).normalize().x.raw(), -707_106_781_186);
}

#[test]
fn test_limit_exact() {
    assert_eq!(vec2(3.0, 4.0).limit(fx(3.0)), vec2(1.8, 2.4));
    assert_eq!(vec2(3.0, 4.0).limit(fx(5.0)), vec2(3.0, 4.0));
    assert_eq!(vec2(-30.0, 40.0).limit(fx(0.0)), vec2(0.0, 0.0));
    assert_eq!(vec2(0.0, -7.0).limit(fx(2.5)), vec2(0.0, -2.5));
}

#[test]
fn test_limit_bounds_magnitude_for_many_vectors() {
    let mut seed: u64 = 0x2545_f491_4f6c_dd1d;
    for _ in 0..20000 {
        seed ^= seed << 13;
        seed ^= seed >> 7;
        seed ^= seed << 17;
        let x = (seed >> 8) as i64 - (1i64 << 55);
        seed ^= seed << 13;
        seed ^= seed >> 7;
        seed ^= seed << 17;
        let y = (seed >> 8) as i64 - (1i64 << 55);
        seed ^= seed << 13;
        seed ^= seed >> 7;
        seed ^= seed << 17;
        let max = (seed >> 20) as i64;
        let v = Vector2::new(Scalar::from_raw(x), Scalar::from_raw(y));
        let limited = v.limit(Scalar::from_raw(max));
        assert!(limited.magnitude().raw() <= max);
    }
    let huge = Vector2::new(Scalar::from_raw(i64::MIN), Scalar::from_raw(i64::MIN));
    assert!(huge.limit(fx(2.0)).magnitude().raw() <= fx(2.0).raw());
    assert_eq!(huge.magnitude().raw(), i64::MAX);
    assert_eq!(huge.length_raw(), 13_043_817_825_332_782_212);
}

#[test]
fn test_wrap_position_moves_by_one_dimension_only() {
    // Known limit: a position more than one dimension out stays outside.
    let wrapped = wrap_position(vec2(250.0, -130.0), fx(100.0), fx(100.0));
    assert_eq!(wrapped, vec2(150.0, -30.0));
    // The upper edge itself wraps to zero.
    let wrapped = wrap_position(vec2(100.0, 0.0), fx(100.0), fx(100.0));
    assert_eq!(wrapped, vec2(0.0, 0.0));
    let wrapped = wrap_position(vec2(99.999999999999, 42.0), fx(100.0), fx(100.0));
    assert_eq!(wrapped, vec2(99.999999999999, 42.0));
}

#[test]
fn test_clamp_position_keeps_inner_points() {
    assert_eq!(clamp_position(vec2(0.0, 100.0), fx(100.0), fx(100.0)), vec2(0.0, 100.0));
    assert_eq!(clamp_position(vec2(33.5, 66.25), fx(100.0), fx(100.0)), vec2(33.5, 66.25));
    assert_eq!(clamp_position(vec2(-0.5, 100.5), fx(100.0), fx(100.0)), vec2(0.0, 100.0));
}

#[test]
fn test_isqrt() {
    assert_eq!(isqrt(0), 0);
    assert_eq!(isqrt(1), 1);
    assert_eq!(isqrt(3), 1);
    assert_eq!(isqrt(4), 2);
    assert_eq!(isqrt(99), 9);
    assert_eq!(isqrt(100), 10);
    assert_eq!(isqrt(1u128 << 126), 1u64 << 63);
    assert_eq!(isqrt(u128::MAX), u64::MAX);
    assert_eq!(isqrt((u64::MAX as u128) * (u64::MAX as u128) - 1), u64::MAX - 1);
}

#[test]
fn test_scalar_arithmetic() {
    assert_eq!(fx(1.5).add(fx(2.25)), fx(3.75));
    assert_eq!(fx(1.5).sub(fx(2.25)), fx(-0.75));
    assert_eq!(fx(1.5).mul(fx(-2.5)), fx(-3.75));
    assert_eq!(fx(7.0).div(fx(2.0)), fx(3.5));
    assert_eq!(fx(-7.0).div(fx(2.0)), fx(-3.5));
    assert_eq!(fx(7.0).div(fx(-2.0)), fx(-3.5));
    assert_eq!(fx(-7.0).div(fx(-2.0)), fx(3.5));
    assert_eq!(fx(1.0).div(fx(3.0)).raw(), 333_333_333_333);
    assert_eq!(fx(-1.0).div(fx(3.0)).raw(), -333_333_333_333);
    assert_eq!(Scalar::from_raw(1).mul(fx(0.5)).raw(), 0);
    assert_eq!(Scalar::from_raw(-1).mul(fx(0.5)).raw(), 0);
    assert_eq!(Scalar::from_raw(3).mul(fx(0.5)).raw(), 1);
    assert_eq!(Scalar::from_raw(-3).mul(fx(0.5)).raw(), -1);
    assert_eq!(fx(-2.0).neg(), fx(2.0));
    assert_eq!(fx(-2.0).abs(), fx(2.0));
    assert_eq!(fx(2.0).abs(), fx(2.0));
    assert_eq!(fx(2.0).min(fx(-3.0)), fx(-3.0));
    assert_eq!(fx(2.0).max(fx(-3.0)), fx(2.0));
    assert_eq!(Scalar::one(), fx(1.0));
    assert_eq!(Scalar::zero(), fx(0.0));
}

#[test]
fn test_scalar_saturation() {
    let max = Scalar::from_raw(i64::MAX);
    let min = Scalar::from_raw(i64::MIN);
    assert_eq!(max.add(fx(1.0)), max);
    assert_eq!(min.sub(fx(1.0)), min);
    assert_eq!(max.mul(fx(2.0)), max);
    assert_eq!(max.mul(fx(-2.0)), min);
    assert_eq!(min.neg(), max);
    assert_eq!(min.abs(), max);
    assert_eq!(fx(5.0).div(fx(0.0)), max);
    assert_eq!(fx(-5.0).div(fx(0.0)), min);
    assert_eq!(fx(0.0).div(fx(0.0)), fx(0.0));
    assert_eq!(max.div(Scalar::from_raw(1)), max);
}
