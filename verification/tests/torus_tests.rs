// Torus topography tests

use predator_prey_sim::utils::fixed::Scalar;
use predator_prey_sim::utils::math::{
    distance_torus, distance_torus_squared, wrap_position, Vector2,
};

fn fx(value: f64) -> Scalar {
    Scalar::from_raw((value * 1e12).round() as i64)
}

fn to_f64(value: Scalar) -> f64 {
    value.raw() as f64 / 1e12
}

fn vec2(x: f64, y: f64) -> Vector2 {
    Vector2::new(fx(x), fx(y))
}

#[test]
fn test_torus_distance_same_position() {
    let p1 = vec2(50.0, 50.0);
    let p2 = vec2(50.0, 50.0);
    assert_eq!(distance_torus(&p1, &p2, fx(100.0), fx(100.0)), fx(0.0));
}

#[test]
fn test_torus_distance_normal() {
    let p1 = vec2(10.0, 10.0);
    let p2 = vec2(20.0, 20.0);
    let dist = to_f64(distance_torus(&p1, &p2, fx(100.0), fx(100.0)));
    let expected = ((10.0f64).powi(2) + (10.0f64).powi(2)).sqrt();
    assert!((dist - expected).abs() < 1e-10);
}

#[test]
fn test_torus_distance_wraparound_x() {
    let p1 = vec2(10.0, 50.0);
    let p2 = vec2(90.0, 50.0);
    // Direct distance: 80
    // Wrapped distance: 20 (via edge)
    let dist = to_f64(distance_torus(&p1, &p2, fx(100.0), fx(100.0)));
    assert!((dist - 20.0).abs() < 1e-10, "Expected ~20.0, got {}", dist);
}

#[test]
fn test_torus_distance_wraparound_y() {
    let p1 = vec2(50.0, 10.0);
    let p2 = vec2(50.0, 90.0);
    let dist = to_f64(distance_torus(&p1, &p2, fx(100.0), fx(100.0)));
    assert!((dist - 20.0).abs() < 1e-10, "Expected ~20.0, got {}", dist);
}

#[test]
fn test_torus_distance_wraparound_both() {
    let p1 = vec2(10.0, 10.0);
    let p2 = vec2(90.0, 90.0);
    // Direct: sqrt(80² + 80²) ≈ 113.1
    // Wrapped: sqrt(20² + 20²) ≈ 28.3
    let dist = to_f64(distance_torus(&p1, &p2, fx(100.0), fx(100.0)));
    let expected_wrapped = ((20.0f64).powi(2) + (20.0f64).powi(2)).sqrt();
    assert!((dist - expected_wrapped).abs() < 1e-10);
}

#[test]
fn test_torus_distance_squared() {
    let p1 = vec2(10.0, 50.0);
    let p2 = vec2(90.0, 50.0);
    let dist_sq = to_f64(distance_torus_squared(&p1, &p2, fx(100.0), fx(100.0)));
    let expected = 20.0 * 20.0;
    assert!((dist_sq - expected).abs() < 1e-10);
}

#[test]
fn test_wrap_position_negative_x() {
    let pos = vec2(-10.0, 50.0);
    let wrapped = wrap_position(pos, fx(100.0), fx(100.0));
    assert!((to_f64(wrapped.x) - 90.0).abs() < 1e-10);
    assert_eq!(wrapped.y, fx(50.0));
}

#[test]
fn test_wrap_position_overflow_x() {
    let pos = vec2(110.0, 50.0);
    let wrapped = wrap_position(pos, fx(100.0), fx(100.0));
    assert!((to_f64(wrapped.x) - 10.0).abs() < 1e-10);
    assert_eq!(wrapped.y, fx(50.0));
}

#[test]
fn test_wrap_position_corners() {
    // Top-left corner wraps to bottom-right
    let pos = vec2(-5.0, -5.0);
    let wrapped = wrap_position(pos, fx(100.0), fx(100.0));
    assert!((to_f64(wrapped.x) - 95.0).abs() < 1e-10);
    assert!((to_f64(wrapped.y) - 95.0).abs() < 1e-10);

    // Bottom-right corner wraps to top-left
    let pos = vec2(105.0, 105.0);
    let wrapped = wrap_position(pos, fx(100.0), fx(100.0));
    assert!((to_f64(wrapped.x) - 5.0).abs() < 1e-10);
    assert!((to_f64(wrapped.y) - 5.0).abs() < 1e-10);
}

#[test]
fn test_torus_distance_is_exactly_twenty() {
    let p1 = vec2(10.0, 50.0);
    let p2 = vec2(90.0, 50.0);
    assert_eq!(distance_torus(&p1, &p2, fx(100.0), fx(100.0)), fx(20.0));
    assert_eq!(distance_torus(&p2, &p1, fx(100.0), fx(100.0)), fx(20.0));
    assert_eq!(distance_torus_squared(&p1, &p2, fx(100.0), fx(100.0)), fx(400.0));
}

#[test]
fn test_torus_distance_half_way_round() {
    let p1 = vec2(0.0, 0.0);
    let p2 = vec2(50.0, 30.0);
    // Half the width either way; 30 is nearer directly than the 70 around.
    assert_eq!(distance_torus(&p1, &p2, fx(100.0), fx(100.0)).raw(), 58_309_518_948_453);
    let p3 = vec2(3.0, 96.0);
    assert_eq!(distance_torus(&p1, &p3, fx(100.0), fx(100.0)), fx(5.0));
}
