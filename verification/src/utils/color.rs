//! Color schemes for visualization.

use vstd::prelude::*;
use crate::utils::fixed::{Scalar, SCALE};

verus! {

/// RGB color representation.
#[derive(Debug, Clone, Copy, PartialEq, Eq, Structural)]
pub struct Color {
    pub r: u8,
    pub g: u8,
    pub b: u8,
    pub a: u8,
}

/// `factor` in raw units, clamped to the range from zero to one.
pub open spec fn unit_clamp(factor: int) -> int {
    if factor < 0 {
        0
    } else if factor > SCALE {
        SCALE as int
    } else {
        factor
    }
}

/// The channel between `from` and `to` at the clamped `factor`, rounded down.
pub open spec fn blend(from: u8, to: u8, factor: int) -> int {
    (from * (SCALE - unit_clamp(factor)) + to * unit_clamp(factor)) / (SCALE as int)
}

/// A blended channel lies between the two channels, so it is a channel.
pub proof fn lemma_blend_range(from: u8, to: u8, factor: int)
    ensures
        0 <= blend(from, to, factor) <= 255,
        from <= to ==> from <= blend(from, to, factor) <= to,
        to <= from ==> to <= blend(from, to, factor) <= from,
        factor <= 0 ==> blend(from, to, factor) == from,
        factor >= SCALE ==> blend(from, to, factor) == to,
{
    let s = SCALE as int;
    let f = unit_clamp(factor);
    let low: int = if from <= to { from as int } else { to as int };
    let high: int = if from <= to { to as int } else { from as int };
    let n = from * (s - f) + to * f;
    assert(low * s <= n <= high * s) by (nonlinear_arith)
        requires
            0 <= f <= s,
            n == from * (s - f) + to * f,
            low <= from <= high,
            low <= to <= high,
    ;
    assert(low <= n / s <= high) by (nonlinear_arith)
        requires
            low * s <= n <= high * s,
            s > 0,
    ;
    if factor <= 0 {
        assert(n == from * s) by (nonlinear_arith)
            requires
                n == from * (s - f) + to * f,
                f == 0,
        ;
        assert((from * s) / s == from) by (nonlinear_arith)
            requires
                s > 0,
        ;
    }
    if factor >= s {
        assert(n == to * s) by (nonlinear_arith)
            requires
                n == from * (s - f) + to * f,
                f == s,
        ;
        assert((to * s) / s == to) by (nonlinear_arith)
            requires
                s > 0,
        ;
    }
}

/// One channel of a blend.
fn blend_channel(from: u8, to: u8, factor: i64) -> (c: u8)
    requires
        0 <= factor <= SCALE,
    ensures
        c == blend(from, to, factor as int),
{
    proof {
        lemma_blend_range(from, to, factor as int);
    }
    assert(0 <= from * (SCALE - factor) <= 255 * 1_000_000_000_000) by (nonlinear_arith)
        requires
            0 <= from <= 255,
            0 <= SCALE - factor <= 1_000_000_000_000,
    ;
    assert(0 <= to * factor <= 255 * 1_000_000_000_000) by (nonlinear_arith)
        requires
            0 <= to <= 255,
            0 <= factor <= 1_000_000_000_000,
    ;
    let n: i64 = (from as i64) * (SCALE - factor) + (to as i64) * factor;
    (n / SCALE) as u8
}

impl Color {
    /// The color between `self` and `other` at `factor`, channel by channel.
    pub open spec fn blended(self, other: Color, factor: Scalar) -> Color {
        Color {
            r: blend(self.r, other.r, factor@) as u8,
            g: blend(self.g, other.g, factor@) as u8,
            b: blend(self.b, other.b, factor@) as u8,
            a: blend(self.a, other.a, factor@) as u8,
        }
    }

    /// Create a new color with RGBA values.
    pub fn rgba(r: u8, g: u8, b: u8, a: u8) -> (c: Color)
        ensures
            c == (Color { r, g, b, a }),
    {
        Color { r, g, b, a }
    }

    /// Create a new color with RGB values (alpha = 255).
    pub fn rgb(r: u8, g: u8, b: u8) -> (c: Color)
        ensures
            c == (Color { r, g, b, a: 255 }),
    {
        Color { r, g, b, a: 255 }
    }

    /// Interpolate between two colors based on a factor (0.0 to 1.0); a
    /// factor outside that range counts as the nearer end of it.
    pub fn lerp(&self, other: &Color, factor: Scalar) -> (c: Color)
        ensures
            c == self.blended(*other, factor),
            factor@ <= 0 ==> c == *self,
            factor@ >= SCALE ==> c == *other,
    {
        let f: i64 = if factor.raw < 0 {
            0
        } else if factor.raw > SCALE {
            SCALE
        } else {
            factor.raw
        };
        proof {
            lemma_blend_range(self.r, other.r, factor@);
            lemma_blend_range(self.g, other.g, factor@);
            lemma_blend_range(self.b, other.b, factor@);
            lemma_blend_range(self.a, other.a, factor@);
        }
        Color {
            r: blend_channel(self.r, other.r, f),
            g: blend_channel(self.g, other.g, f),
            b: blend_channel(self.b, other.b, f),
            a: blend_channel(self.a, other.a, f),
        }
    }
}

/// Predefined colors for the simulation.
pub struct Colors;

impl Colors {
    /// The color of an agent at an energy level: between the dark and the
    /// bright color of its species.
    pub open spec fn energy_color_spec(factor: Scalar, is_predator: bool) -> Color {
        if is_predator {
            (Color { r: 139, g: 0, b: 0, a: 255 }).blended(
                Color { r: 255, g: 69, b: 0, a: 255 },
                factor,
            )
        } else {
            (Color { r: 0, g: 100, b: 0, a: 255 }).blended(
                Color { r: 144, g: 238, b: 144, a: 255 },
                factor,
            )
        }
    }

    /// Predator color (crimson red).
    pub fn predator() -> (c: Color)
        ensures
            c == (Color { r: 220, g: 20, b: 60, a: 255 }),
    {
        Color::rgb(220, 20, 60)
    }

    /// Prey color (forest green).
    pub fn prey() -> (c: Color)
        ensures
            c == (Color { r: 34, g: 139, b: 34, a: 255 }),
    {
        Color::rgb(34, 139, 34)
    }

    /// Background color (light gray).
    pub fn background() -> (c: Color)
        ensures
            c == (Color { r: 240, g: 240, b: 240, a: 255 }),
    {
        Color::rgb(240, 240, 240)
    }

    /// Get color based on energy level, from 0.0 (low energy) to 1.0 (high
    /// energy): dark red to bright orange-red for a predator, dark green to
    /// light green for a prey.
    pub fn energy_color(factor: Scalar, is_predator: bool) -> (c: Color)
        ensures
            c == Colors::energy_color_spec(factor, is_predator),
    {
        if is_predator {
            let low = Color::rgb(139, 0, 0);
            let high = Color::rgb(255, 69, 0);
            low.lerp(&high, factor)
        } else {
            let low = Color::rgb(0, 100, 0);
            let high = Color::rgb(144, 238, 144);
            low.lerp(&high, factor)
        }
    }

    /// Grid line color.
    pub fn grid() -> (c: Color)
        ensures
            c == (Color { r: 200, g: 200, b: 200, a: 255 }),
    {
        Color::rgb(200, 200, 200)
    }

    /// Text color.
    pub fn text() -> (c: Color)
        ensures
            c == (Color { r: 30, g: 30, b: 30, a: 255 }),
    {
        Color::rgb(30, 30, 30)
    }
}

} // verus!
