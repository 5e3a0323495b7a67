// Color utility tests

use predator_prey_sim::utils::color::{Color, Colors};
use predator_prey_sim::utils::fixed::Scalar;

fn fx(value: f64) -> Scalar {
    Scalar::from_raw((value * 1e12).round() as i64)
}

#[test]
fn test_color_rgb() {
    let color = Color::rgb(255, 128, 64);
    assert_eq!(color.r, 255);
    assert_eq!(color.g, 128);
    assert_eq!(color.b, 64);
    assert_eq!(color.a, 255);
}

#[test]
fn test_color_rgba() {
    let color = Color::rgba(255, 128, 64, 200);
    assert_eq!(color.r, 255);
    assert_eq!(color.g, 128);
    assert_eq!(color.b, 64);
    assert_eq!(color.a, 200);
}

#[test]
fn test_color_lerp() {
    let c1 = Color::rgb(0, 0, 0);
    let c2 = Color::rgb(255, 255, 255);

    let mid = c1.lerp(&c2, fx(0.5));
    assert_eq!(mid.r, 127);
    assert_eq!(mid.g, 127);
    assert_eq!(mid.b, 127);

    let start = c1.lerp(&c2, fx(0.0));
    assert_eq!(start, c1);

    let end = c1.lerp(&c2, fx(1.0));
    assert_eq!(end, c2);
}

#[test]
fn test_colors_predator() {
    let color = Colors::predator();
    assert!(color.r > 200); // Should be red
}

#[test]
fn test_colors_prey() {
    let color = Colors::prey();
    assert!(color.g > 100); // Should be green
}

#[test]
fn test_energy_color() {
    let low = Colors::energy_color(fx(0.0), true);
    let high = Colors::energy_color(fx(1.0), true);
    assert_ne!(low, high);

    let mid = Colors::energy_color(fx(0.5), true);
    // Mid should be between low and high
    assert!(mid.r >= low.r.min(high.r));
    assert!(mid.r <= low.r.max(high.r));
}

#[test]
fn test_lerp_clamps_factor() {
    let c1 = Color::rgba(10, 20, 30, 40);
    let c2 = Color::rgba(110, 120, 130, 140);
    assert_eq!(c1.lerp(&c2, fx(-3.0)), c1);
    assert_eq!(c1.lerp(&c2, fx(7.5)), c2);
    assert_eq!(c1.lerp(&c2, fx(0.25)), Color::rgba(35, 45, 55, 65));
}

#[test]
fn test_fixed_colors() {
    assert_eq!(Colors::predator(), Color::rgb(220, 20, 60));
    assert_eq!(Colors::prey(), Color::rgb(34, 139, 34));
    assert_eq!(Colors::background(), Color::rgb(240, 240, 240));
    assert_eq!(Colors::grid(), Color::rgb(200, 200, 200));
    assert_eq!(Colors::text(), Color::rgb(30, 30, 30));
    assert_eq!(Colors::energy_color(fx(0.0), false), Color::rgb(0, 100, 0));
    assert_eq!(Colors::energy_color(fx(1.0), false), Color::rgb(144, 238, 144));
}
