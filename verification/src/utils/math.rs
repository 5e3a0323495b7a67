//! Two-dimensional vectors, distances and boundary handling.

use vstd::prelude::*;
use crate::utils::fixed::{Scalar, SCALE, saturate, trunc_div, sqrt_floor, is_sqrt_floor, isqrt,
    lemma_sqrt_floor_unique, lemma_sqrt_floor_exists};

verus! {

/// 2D vector for positions and velocities.
#[derive(Debug, Clone, Copy, PartialEq, Eq, Structural)]
pub struct Vector2 {
    pub x: Scalar,
    pub y: Scalar,
}

/// Sum of the squares of two raw coordinates.
pub open spec fn square_sum(x: int, y: int) -> int {
    x * x + y * y
}

impl Vector2 {
    /// Euclidean length in raw units, rounded down and not saturated.
    pub open spec fn length(self) -> int {
        sqrt_floor(square_sum(self.x@, self.y@))
    }

    /// Euclidean length, rounded down.
    pub open spec fn norm(self) -> Scalar {
        Scalar { raw: saturate(self.length()) as i64 }
    }

    /// Squared length: the sum of the two squared coordinates.
    pub open spec fn norm_squared(self) -> Scalar {
        self.x.times(self.x).plus(self.y.times(self.y))
    }

    /// The vector divided by its length; the zero vector stays zero.
    pub open spec fn normalized(self) -> Vector2 {
        if self.length() > 0 {
            Vector2 {
                x: Scalar { raw: trunc_div(self.x@ * SCALE, self.length()) as i64 },
                y: Scalar { raw: trunc_div(self.y@ * SCALE, self.length()) as i64 },
            }
        } else {
            Vector2 { x: Scalar { raw: 0 }, y: Scalar { raw: 0 } }
        }
    }

    /// Both coordinates multiplied by `scalar`.
    pub open spec fn scaled(self, scalar: Scalar) -> Vector2 {
        Vector2 { x: self.x.times(scalar), y: self.y.times(scalar) }
    }

    /// The vector shortened to length `max` where it is longer.
    pub open spec fn limited(self, max: Scalar) -> Vector2 {
        if self.norm()@ > max@ {
            self.normalized().scaled(max)
        } else {
            self
        }
    }

    /// Coordinate-wise sum.
    pub open spec fn plus(self, other: Vector2) -> Vector2 {
        Vector2 { x: self.x.plus(other.x), y: self.y.plus(other.y) }
    }

    /// Coordinate-wise difference.
    pub open spec fn minus(self, other: Vector2) -> Vector2 {
        Vector2 { x: self.x.minus(other.x), y: self.y.minus(other.y) }
    }

    /// Whether both coordinates are zero.
    pub open spec fn is_zero(self) -> bool {
        self.x@ == 0 && self.y@ == 0
    }

    /// Create a new vector.
    pub fn new(x: Scalar, y: Scalar) -> (v: Vector2)
        ensures
            v == (Vector2 { x, y }),
    {
        Vector2 { x, y }
    }

    /// Create a zero vector.
    pub fn zero() -> (v: Vector2)
        ensures
            v.x@ == 0,
            v.y@ == 0,
    {
        Vector2 { x: Scalar { raw: 0 }, y: Scalar { raw: 0 } }
    }

    /// Euclidean length in raw units, rounded down, without saturation.
    pub fn length_raw(&self) -> (m: u64)
        ensures
            m as int == self.length(),
            is_sqrt_floor(square_sum(self.x@, self.y@), m as int),
    {
        let x: i64 = self.x.raw;
        let y: i64 = self.y.raw;
        assert(0 <= x * x <= 0x8000_0000_0000_0000 * 0x8000_0000_0000_0000) by (nonlinear_arith)
            requires
                -0x8000_0000_0000_0000 <= x <= 0x7fff_ffff_ffff_ffff,
        ;
        assert(0 <= y * y <= 0x8000_0000_0000_0000 * 0x8000_0000_0000_0000) by (nonlinear_arith)
            requires
                -0x8000_0000_0000_0000 <= y <= 0x7fff_ffff_ffff_ffff,
        ;
        let xx: i128 = (x as i128) * (x as i128);
        let yy: i128 = (y as i128) * (y as i128);
        let n: u128 = (xx as u128) + (yy as u128);
        isqrt(n)
    }

    /// Calculate the magnitude (length) of the vector.
    pub fn magnitude(&self) -> (m: Scalar)
        ensures
            m == self.norm(),
            m@ >= 0,
    {
        let m: u64 = self.length_raw();
        if m > i64::MAX as u64 {
            Scalar { raw: i64::MAX }
        } else {
            Scalar { raw: m as i64 }
        }
    }

    /// Calculate the squared magnitude (no square root).
    pub fn magnitude_squared(&self) -> (m: Scalar)
        ensures
            m == self.norm_squared(),
    {
        self.x.mul(self.x).add(self.y.mul(self.y))
    }

    /// Normalize the vector to unit length.
    pub fn normalize(&self) -> (v: Vector2)
        ensures
            v == self.normalized(),
            -SCALE <= v.x@ <= SCALE,
            -SCALE <= v.y@ <= SCALE,
    {
        let m: u64 = self.length_raw();
        if m > 0 {
            proof {
                lemma_normalized_coordinate(self.x@, self.y@, m as int);
                lemma_normalized_coordinate(self.y@, self.x@, m as int);
                assert(square_sum(self.y@, self.x@) == square_sum(self.x@, self.y@));
            }
            let x: i64 = self.x.raw;
            let y: i64 = self.y.raw;
            let nx: i128 = ((x as i128) * (SCALE as i128)) / (m as i128);
            let ny: i128 = ((y as i128) * (SCALE as i128)) / (m as i128);
            Vector2 { x: Scalar { raw: nx as i64 }, y: Scalar { raw: ny as i64 } }
        } else {
            Vector2 { x: Scalar { raw: 0 }, y: Scalar { raw: 0 } }
        }
    }

    /// Scale the vector by a scalar.
    pub fn scale(&self, scalar: Scalar) -> (v: Vector2)
        ensures
            v == self.scaled(scalar),
    {
        Vector2 { x: self.x.mul(scalar), y: self.y.mul(scalar) }
    }

    /// Limit the magnitude to a maximum value.
    pub fn limit(&self, max: Scalar) -> (v: Vector2)
        ensures
            v == self.limited(max),
            max@ >= 0 ==> v.norm()@ <= max@,
    {
        let mag = self.magnitude();
        if mag.raw > max.raw {
            let v = self.normalize().scale(max);
            proof {
                lemma_shortened_within(*self, max);
            }
            v
        } else {
            *self
        }
    }

    /// Add two vectors.
    pub fn add(&self, other: &Vector2) -> (v: Vector2)
        ensures
            v == self.plus(*other),
    {
        Vector2 { x: self.x.add(other.x), y: self.y.add(other.y) }
    }

    /// Subtract two vectors.
    pub fn subtract(&self, other: &Vector2) -> (v: Vector2)
        ensures
            v == self.minus(*other),
    {
        Vector2 { x: self.x.sub(other.x), y: self.y.sub(other.y) }
    }
}

/// A coordinate of a vector is no longer than the vector, so the normalized
/// coordinate lies between minus one and one.
pub proof fn lemma_normalized_coordinate(x: int, y: int, m: int)
    requires
        is_sqrt_floor(square_sum(x, y), m),
        m > 0,
    ensures
        -m <= x <= m,
        -SCALE <= trunc_div(x * SCALE, m) <= SCALE,
        x >= 0 ==> trunc_div(x * SCALE, m) == (x * SCALE) / m,
        x < 0 ==> trunc_div(x * SCALE, m) == -(((-x) * SCALE) / m),
{
    let a = if x >= 0 { x } else { -x };
    assert(a * a == x * x) by (nonlinear_arith)
        requires
            a == x || a == -x,
    ;
    assert(y * y >= 0) by (nonlinear_arith);
    if a > m {
        assert((m + 1) * (m + 1) <= a * a) by (nonlinear_arith)
            requires
                0 <= m,
                m + 1 <= a,
        ;
    }
    assert(0 <= a * SCALE <= m * SCALE) by (nonlinear_arith)
        requires
            0 <= a <= m,
    ;
    assert(0 <= (a * SCALE) / m <= SCALE) by (nonlinear_arith)
        requires
            0 <= a * SCALE <= m * SCALE,
            m > 0,
    ;
    if x >= 0 {
        assert(x * SCALE >= 0) by (nonlinear_arith)
            requires
                x >= 0,
        ;
    } else {
        assert(x * SCALE < 0 && -(x * SCALE) == (-x) * SCALE) by (nonlinear_arith)
            requires
                x < 0,
        ;
    }
}

/// Scaling a normalized coordinate by `max` shrinks the coordinate at least
/// in the ratio of `max` to the vector's length `m`.
pub proof fn lemma_scaled_coordinate(a: int, m: int, max: int)
    requires
        0 <= a <= m,
        m > 0,
        max >= 0,
    ensures
        0 <= ((a * SCALE) / m * max) / (SCALE as int) <= max,
        (((a * SCALE) / m * max) / (SCALE as int)) * m <= a * max,
{
    let s = SCALE as int;
    let q = (a * s) / m;
    let r = (q * max) / s;
    assert(0 <= a * s <= m * s) by (nonlinear_arith)
        requires
            0 <= a <= m,
            s > 0,
    ;
    assert(0 <= q <= s && q * m <= a * s) by (nonlinear_arith)
        requires
            q == (a * s) / m,
            0 <= a * s <= m * s,
            m > 0,
    ;
    assert(0 <= q * max <= s * max) by (nonlinear_arith)
        requires
            0 <= q <= s,
            max >= 0,
    ;
    assert(0 <= r <= max && r * s <= q * max) by (nonlinear_arith)
        requires
            r == (q * max) / s,
            0 <= q * max <= s * max,
            s > 0,
    ;
    assert((r * m) * s <= (a * max) * s) by (nonlinear_arith)
        requires
            r * s <= q * max,
            q * m <= a * s,
            m > 0,
            max >= 0,
            r >= 0,
            q >= 0,
    ;
    assert(r * m <= a * max) by (nonlinear_arith)
        requires
            (r * m) * s <= (a * max) * s,
            s > 0,
    ;
}

/// Two shrunk coordinates make a vector of squared length below `(max + 1)^2`.
pub proof fn lemma_shrunk_square_sum(a: int, b: int, m: int, max: int, ra: int, rb: int)
    requires
        0 <= a,
        0 <= b,
        a * a + b * b < (m + 1) * (m + 1),
        m > max >= 0,
        0 <= ra,
        0 <= rb,
        ra * m <= a * max,
        rb * m <= b * max,
    ensures
        ra * ra + rb * rb < (max + 1) * (max + 1),
{
    let n = a * a + b * b;
    assert((ra * m) * (ra * m) <= (a * max) * (a * max)) by (nonlinear_arith)
        requires
            0 <= ra * m <= a * max,
    ;
    assert((rb * m) * (rb * m) <= (b * max) * (b * max)) by (nonlinear_arith)
        requires
            0 <= rb * m <= b * max,
    ;
    assert(0 <= ra * m && 0 <= rb * m) by (nonlinear_arith)
        requires
            0 <= ra,
            0 <= rb,
            m > 0,
    ;
    assert((a * max) * (a * max) + (b * max) * (b * max) == (max * max) * n) by (nonlinear_arith)
        requires
            n == a * a + b * b,
    ;
    assert((ra * m) * (ra * m) + (rb * m) * (rb * m) == (m * m) * (ra * ra + rb * rb))
        by (nonlinear_arith);
    assert((max * max) * n <= (max * max) * ((m + 1) * (m + 1))) by (nonlinear_arith)
        requires
            n < (m + 1) * (m + 1),
    ;
    assert((max * max) * ((m + 1) * (m + 1)) == (max * (m + 1)) * (max * (m + 1)))
        by (nonlinear_arith);
    assert((max * (m + 1)) * (max * (m + 1)) < (m * (max + 1)) * (m * (max + 1)))
        by (nonlinear_arith)
        requires
            m > max >= 0,
    ;
    assert((m * (max + 1)) * (m * (max + 1)) == (m * m) * ((max + 1) * (max + 1)))
        by (nonlinear_arith);
    assert(ra * ra + rb * rb < (max + 1) * (max + 1)) by (nonlinear_arith)
        requires
            (m * m) * (ra * ra + rb * rb) < (m * m) * ((max + 1) * (max + 1)),
            m > 0,
    ;
}

/// The zero vector has length zero.
pub proof fn lemma_zero_length(v: Vector2)
    requires
        v.is_zero(),
    ensures
        v.length() == 0,
        v.norm()@ == 0,
{
    assert(is_sqrt_floor(square_sum(v.x@, v.y@), 0));
    lemma_sqrt_floor_unique(square_sum(v.x@, v.y@), 0);
}

/// Cut down to a non-negative `max`, a vector is no longer than `max`.
pub proof fn lemma_limited_within(v: Vector2, max: Scalar)
    ensures
        max@ >= 0 ==> v.limited(max).norm()@ <= max@,
{
    if v.norm()@ > max@ {
        lemma_shortened_within(v, max);
    }
}

/// A vector longer than `max` is no longer than `max` once it is normalized
/// and scaled by `max`.
pub proof fn lemma_shortened_within(v: Vector2, max: Scalar)
    requires
        v.norm()@ > max@,
    ensures
        max@ >= 0 ==> v.normalized().scaled(max).norm()@ <= max@,
{
    if max@ >= 0 {
        let x = v.x@;
        let y = v.y@;
        let s = SCALE as int;
        let n = square_sum(x, y);
        assert(x * x >= 0 && y * y >= 0) by (nonlinear_arith);
        lemma_sqrt_floor_exists(n);
        let m = v.length();
        let k = max@;
        assert(m > k);
        lemma_normalized_coordinate(x, y, m);
        assert(square_sum(y, x) == n);
        lemma_normalized_coordinate(y, x, m);
        let a = if x >= 0 { x } else { -x };
        let b = if y >= 0 { y } else { -y };
        assert(a * a == x * x) by (nonlinear_arith)
            requires
                a == x || a == -x,
        ;
        assert(b * b == y * y) by (nonlinear_arith)
            requires
                b == y || b == -y,
        ;
        lemma_scaled_coordinate(a, m, k);
        lemma_scaled_coordinate(b, m, k);
        let qa = (a * s) / m;
        let qb = (b * s) / m;
        let ra = (qa * k) / s;
        let rb = (qb * k) / s;
        let u = v.normalized();
        assert(u.x@ == if x >= 0 { qa } else { -qa });
        assert(u.y@ == if y >= 0 { qb } else { -qb });
        let w = u.scaled(max);
        assert(w.x@ == if x >= 0 { ra } else { -ra }) by {
            lemma_signed_product(qa, k, x >= 0);
        }
        assert(w.y@ == if y >= 0 { rb } else { -rb }) by {
            lemma_signed_product(qb, k, y >= 0);
        }
        lemma_shrunk_square_sum(a, b, m, k, ra, rb);
        assert(w.x@ * w.x@ == ra * ra) by (nonlinear_arith)
            requires
                w.x@ == ra || w.x@ == -ra,
        ;
        assert(w.y@ * w.y@ == rb * rb) by (nonlinear_arith)
            requires
                w.y@ == rb || w.y@ == -rb,
        ;
        let nw = square_sum(w.x@, w.y@);
        assert(nw >= 0) by (nonlinear_arith)
            requires
                nw == ra * ra + rb * rb,
        ;
        lemma_sqrt_floor_exists(nw);
        let mw = w.length();
        if mw > k {
            assert((k + 1) * (k + 1) <= mw * mw) by (nonlinear_arith)
                requires
                    0 <= k,
                    k + 1 <= mw,
            ;
        }
    }
}

/// The rounded product of a signed factor `q` (or its negation) with a
/// non-negative `k` is the rounded product of the absolute values, signed.
pub proof fn lemma_signed_product(q: int, k: int, positive: bool)
    requires
        0 <= q <= SCALE,
        0 <= k <= i64::MAX,
    ensures
        crate::utils::fixed::mul_raw(if positive { q } else { -q }, k) == if positive {
            (q * k) / (SCALE as int)
        } else {
            -((q * k) / (SCALE as int))
        },
{
    let s = SCALE as int;
    assert(0 <= q * k <= s * k) by (nonlinear_arith)
        requires
            0 <= q <= s,
            0 <= k,
    ;
    assert(0 <= (q * k) / s <= k) by (nonlinear_arith)
        requires
            0 <= q * k <= s * k,
            s > 0,
    ;
    assert((-q) * k == -(q * k)) by (nonlinear_arith);
}

} // verus!

verus! {

impl core::ops::Add for Vector2 {
    type Output = Vector2;

    fn add(self, other: Vector2) -> (v: Vector2) {
        Vector2 { x: self.x.add(other.x), y: self.y.add(other.y) }
    }
}

impl vstd::std_specs::ops::AddSpecImpl for Vector2 {
    open spec fn obeys_add_spec() -> bool {
        true
    }

    open spec fn add_req(self, other: Vector2) -> bool {
        true
    }

    open spec fn add_spec(self, other: Vector2) -> Vector2 {
        self.plus(other)
    }
}

impl core::ops::Sub for Vector2 {
    type Output = Vector2;

    fn sub(self, other: Vector2) -> (v: Vector2) {
        Vector2 { x: self.x.sub(other.x), y: self.y.sub(other.y) }
    }
}

impl vstd::std_specs::ops::SubSpecImpl for Vector2 {
    open spec fn obeys_sub_spec() -> bool {
        true
    }

    open spec fn sub_req(self, other: Vector2) -> bool {
        true
    }

    open spec fn sub_spec(self, other: Vector2) -> Vector2 {
        self.minus(other)
    }
}

impl core::ops::Mul<Scalar> for Vector2 {
    type Output = Vector2;

    fn mul(self, scalar: Scalar) -> (v: Vector2) {
        self.scale(scalar)
    }
}

impl vstd::std_specs::ops::MulSpecImpl<Scalar> for Vector2 {
    open spec fn obeys_mul_spec() -> bool {
        true
    }

    open spec fn mul_req(self, scalar: Scalar) -> bool {
        true
    }

    open spec fn mul_spec(self, scalar: Scalar) -> Vector2 {
        self.scaled(scalar)
    }
}

/// Distance between two points, rounded down.
pub open spec fn distance_spec(pos1: Vector2, pos2: Vector2) -> Scalar {
    pos1.minus(pos2).norm()
}

/// Squared distance between two points.
pub open spec fn distance_squared_spec(pos1: Vector2, pos2: Vector2) -> Scalar {
    pos1.minus(pos2).norm_squared()
}

/// Separation along one axis of a torus of circumference `dimension`: the
/// smaller of the direct separation and the one around the edge.
pub open spec fn wrapped_delta(a: Scalar, b: Scalar, dimension: Scalar) -> Scalar {
    a.minus(b).absolute().smaller(dimension.minus(a.minus(b).absolute()))
}

/// The vector of the two per-axis separations on the torus.
pub open spec fn torus_delta(pos1: Vector2, pos2: Vector2, width: Scalar, height: Scalar)
    -> Vector2 {
    Vector2 {
        x: wrapped_delta(pos1.x, pos2.x, width),
        y: wrapped_delta(pos1.y, pos2.y, height),
    }
}

/// Shortest distance between two points on the torus, rounded down.
pub open spec fn distance_torus_spec(pos1: Vector2, pos2: Vector2, width: Scalar, height: Scalar)
    -> Scalar {
    torus_delta(pos1, pos2, width, height).norm()
}

/// Squared shortest distance between two points on the torus.
pub open spec fn distance_torus_squared_spec(
    pos1: Vector2,
    pos2: Vector2,
    width: Scalar,
    height: Scalar,
) -> Scalar {
    torus_delta(pos1, pos2, width, height).norm_squared()
}

/// One coordinate moved back by one `dimension` where it left `[0, dimension)`.
pub open spec fn wrap_coordinate(v: Scalar, dimension: Scalar) -> Scalar {
    if v@ < 0 {
        v.plus(dimension)
    } else if v@ >= dimension@ {
        v.minus(dimension)
    } else {
        v
    }
}

/// The position with each coordinate wrapped once.
pub open spec fn wrap_position_spec(pos: Vector2, width: Scalar, height: Scalar) -> Vector2 {
    Vector2 { x: wrap_coordinate(pos.x, width), y: wrap_coordinate(pos.y, height) }
}

/// One coordinate clamped to `[0, dimension]`.
pub open spec fn clamp_coordinate(v: Scalar, dimension: Scalar) -> Scalar {
    v.larger(Scalar { raw: 0 }).smaller(dimension)
}

/// The position with each coordinate clamped.
pub open spec fn clamp_position_spec(pos: Vector2, width: Scalar, height: Scalar) -> Vector2 {
    Vector2 { x: clamp_coordinate(pos.x, width), y: clamp_coordinate(pos.y, height) }
}

/// A coordinate no further than one dimension outside `[0, dimension)` is
/// inside it once wrapped.
pub proof fn lemma_wrapped_inside(v: Scalar, dimension: Scalar)
    requires
        dimension@ > 0,
        -dimension@ <= v@ < 2 * dimension@,
    ensures
        0 <= wrap_coordinate(v, dimension)@ < dimension@,
{
}

/// A clamped coordinate lies in `[0, dimension]`.
pub proof fn lemma_clamped_inside(v: Scalar, dimension: Scalar)
    requires
        dimension@ >= 0,
    ensures
        0 <= clamp_coordinate(v, dimension)@ <= dimension@,
{
}

/// Calculate the Euclidean distance between two points.
pub fn distance(pos1: &Vector2, pos2: &Vector2) -> (d: Scalar)
    ensures
        d == distance_spec(*pos1, *pos2),
{
    pos1.subtract(pos2).magnitude()
}

/// Calculate the squared distance (no square root).
pub fn distance_squared(pos1: &Vector2, pos2: &Vector2) -> (d: Scalar)
    ensures
        d == distance_squared_spec(*pos1, *pos2),
{
    pos1.subtract(pos2).magnitude_squared()
}

/// The per-axis separations of two points on the torus.
fn torus_separation(pos1: &Vector2, pos2: &Vector2, width: Scalar, height: Scalar) -> (d: Vector2)
    ensures
        d == torus_delta(*pos1, *pos2, width, height),
{
    let dx = pos1.x.sub(pos2.x).abs();
    let dy = pos1.y.sub(pos2.y).abs();
    Vector2 { x: dx.min(width.sub(dx)), y: dy.min(height.sub(dy)) }
}

/// Calculate the shortest distance between two points on a torus, where
/// opposite edges are connected.
pub fn distance_torus(pos1: &Vector2, pos2: &Vector2, width: Scalar, height: Scalar) -> (d: Scalar)
    ensures
        d == distance_torus_spec(*pos1, *pos2, width, height),
        d@ >= 0,
{
    torus_separation(pos1, pos2, width, height).magnitude()
}

/// Calculate the squared distance on a torus (no square root).
pub fn distance_torus_squared(pos1: &Vector2, pos2: &Vector2, width: Scalar, height: Scalar) -> (d:
    Scalar)
    ensures
        d == distance_torus_squared_spec(*pos1, *pos2, width, height),
{
    torus_separation(pos1, pos2, width, height).magnitude_squared()
}

/// Wrap a position within world bounds (toroidal). Each coordinate moves by
/// at most one world dimension, so a position further out stays outside.
pub fn wrap_position(pos: Vector2, width: Scalar, height: Scalar) -> (p: Vector2)
    ensures
        p == wrap_position_spec(pos, width, height),
{
    let mut x = pos.x;
    let mut y = pos.y;

    if x.raw < 0 {
        x = x.add(width);
    } else if x.raw >= width.raw {
        x = x.sub(width);
    }

    if y.raw < 0 {
        y = y.add(height);
    } else if y.raw >= height.raw {
        y = y.sub(height);
    }

    Vector2 { x, y }
}

/// Clamp a position within world bounds (walls).
pub fn clamp_position(pos: Vector2, width: Scalar, height: Scalar) -> (p: Vector2)
    ensures
        p == clamp_position_spec(pos, width, height),
{
    Vector2 {
        x: pos.x.max(Scalar::zero()).min(width),
        y: pos.y.max(Scalar::zero()).min(height),
    }
}

} // verus!
