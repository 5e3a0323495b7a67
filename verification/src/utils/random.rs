//! Random draws: positions, directions and offsets.

use vstd::prelude::*;
use rand::Rng;
use crate::utils::fixed::{Scalar, SCALE, is_sqrt_floor, lemma_sqrt_floor_exists,
    lemma_sqrt_floor_unique, mul_raw};
use crate::utils::math::{Vector2, square_sum, lemma_normalized_coordinate};

verus! {

/// Number of draws after which [`random_unit`] settles for the x axis.
pub const DIRECTION_ATTEMPTS: u32 = 64;

/// Calls `rand::Rng::gen_range` on the generator that `rand::thread_rng`
/// hands out, with the half-open range `low..high`. Assumed of it: the range
/// being non-empty, the call returns, and what it returns lies in the range.
#[verifier::external_body]
fn random_in_range(low: i64, high: i64) -> (r: i64)
    requires
        low < high,
    ensures
        low <= r < high,
{
    rand::thread_rng().gen_range(low..high)
}

/// The direction of the vector with raw coordinates `a` and `b`.
pub open spec fn direction_of(a: int, b: int) -> Vector2 {
    (Vector2 { x: Scalar { raw: a as i64 }, y: Scalar { raw: b as i64 } }).normalized()
}

/// `u` is the direction of some point of the unit disc other than the
/// origin.
pub open spec fn is_unit_direction(u: Vector2) -> bool {
    exists|a: int, b: int|
        #![trigger direction_of(a, b)]
        -SCALE <= a <= SCALE && -SCALE <= b <= SCALE && 0 < square_sum(a, b) <= SCALE * SCALE
            && direction_of(a, b) == u
}

/// `v` is some unit direction scaled by `magnitude`.
pub open spec fn is_random_direction(v: Vector2, magnitude: Scalar) -> bool {
    exists|u: Vector2| is_unit_direction(u) && v == #[trigger] u.scaled(magnitude)
}

/// `v` is some unit direction scaled by some length from zero up to, but
/// not reaching, `max_radius`.
pub open spec fn is_random_offset(v: Vector2, max_radius: Scalar) -> bool {
    exists|u: Vector2, radius: Scalar|
        is_unit_direction(u) && 0 <= radius@ < max_radius@ && v == #[trigger] u.scaled(radius)
}

/// The x axis is a unit direction, so every magnitude has a direction scaled
/// by it.
pub proof fn lemma_direction_exists(magnitude: Scalar)
    ensures
        is_unit_direction(direction_of(SCALE as int, 0)),
        is_random_direction(direction_of(SCALE as int, 0).scaled(magnitude), magnitude),
{
    let u = direction_of(SCALE as int, 0);
    assert(0 < square_sum(SCALE as int, 0) <= SCALE * SCALE) by (nonlinear_arith)
        requires
            square_sum(SCALE as int, 0) == SCALE * SCALE + 0 * 0,
    ;
    assert(is_unit_direction(u));
    assert(u.scaled(magnitude) == u.scaled(magnitude));
}

/// The direction of the x axis is the vector (1, 0), and scaled by
/// `magnitude` it is the vector (`magnitude`, 0).
pub proof fn lemma_axis_direction(magnitude: Scalar)
    ensures
        direction_of(SCALE as int, 0) == (Vector2 {
            x: Scalar { raw: SCALE },
            y: Scalar { raw: 0 },
        }),
        direction_of(SCALE as int, 0).scaled(magnitude) == (Vector2 {
            x: magnitude,
            y: Scalar { raw: 0 },
        }),
{
    let s = SCALE as int;
    let m = magnitude@;
    assert(is_sqrt_floor(square_sum(s, 0), s)) by (nonlinear_arith)
        requires
            s == 1_000_000_000_000,
            square_sum(s, 0) == s * s + 0 * 0,
    ;
    lemma_sqrt_floor_unique(square_sum(s, 0), s);
    assert(s * s >= 0 && (s * s) / s == s && (0 * s) / s == 0) by (nonlinear_arith)
        requires
            s == 1_000_000_000_000,
    ;
    assert(0 * m == 0) by (nonlinear_arith);
    if m >= 0 {
        assert(s * m >= 0 && (s * m) / s == m) by (nonlinear_arith)
            requires
                s == 1_000_000_000_000,
                m >= 0,
        ;
    } else {
        assert(s * m < 0 && (-(s * m)) / s == -m) by (nonlinear_arith)
            requires
                s == 1_000_000_000_000,
                m < 0,
        ;
    }
}

/// The larger of the two absolute raw coordinates.
pub open spec fn reach(v: Vector2) -> int {
    let a = if v.x@ >= 0 { v.x@ } else { -v.x@ };
    let b = if v.y@ >= 0 { v.y@ } else { -v.y@ };
    if a >= b { a } else { b }
}

/// The direction of a non-zero vector has coordinates between minus one and
/// one, and one of them is at least a half in absolute value.
pub proof fn lemma_direction_reach(a: int, b: int)
    requires
        i64::MIN <= a <= i64::MAX,
        i64::MIN <= b <= i64::MAX,
        a != 0 || b != 0,
    ensures
        SCALE / 2 <= reach(direction_of(a, b)) <= SCALE,
{
    let v = Vector2 { x: Scalar { raw: a as i64 }, y: Scalar { raw: b as i64 } };
    let n = square_sum(a, b);
    assert(a * a >= 0 && b * b >= 0) by (nonlinear_arith);
    assert(n >= 1) by (nonlinear_arith)
        requires
            n == a * a + b * b,
            a != 0 || b != 0,
    ;
    lemma_sqrt_floor_exists(n);
    let m = v.length();
    assert(m >= 1) by {
        if m == 0 {
            assert((m + 1) * (m + 1) == 1);
        }
    }
    lemma_normalized_coordinate(a, b, m);
    assert(square_sum(b, a) == n);
    lemma_normalized_coordinate(b, a, m);
    let pa = if a >= 0 { a } else { -a };
    let pb = if b >= 0 { b } else { -b };
    let big = if pa >= pb { pa } else { pb };
    assert(pa * pa == a * a && pb * pb == b * b) by (nonlinear_arith)
        requires
            pa == a || pa == -a,
            pb == b || pb == -b,
    ;
    assert(n <= 2 * (big * big)) by (nonlinear_arith)
        requires
            n == pa * pa + pb * pb,
            0 <= pa <= big,
            0 <= pb <= big,
    ;
    assert(m < 2 * big) by (nonlinear_arith)
        requires
            m * m <= n,
            n <= 2 * (big * big),
            m >= 1,
            big >= 0,
    ;
    let s = SCALE as int;
    assert((big * s) / m >= s / 2) by (nonlinear_arith)
        requires
            m < 2 * big,
            m >= 1,
            s == 1_000_000_000_000,
    ;
    let u = direction_of(a, b);
    assert(u == v.normalized());
    if pa >= pb {
        assert(u.x@ == (big * s) / m || u.x@ == -((big * s) / m));
    } else {
        assert(u.y@ == (big * s) / m || u.y@ == -((big * s) / m));
    }
}

/// A direction scaled by at least two raw units is not the zero vector, and
/// scaled by a non-negative factor it has no coordinate beyond that factor.
pub proof fn lemma_scaled_direction(u: Vector2, magnitude: Scalar)
    requires
        SCALE / 2 <= reach(u) <= SCALE,
    ensures
        magnitude@ >= 2 ==> !u.scaled(magnitude).is_zero(),
        magnitude@ >= 0 ==> reach(u.scaled(magnitude)) <= magnitude@,
{
    let s = SCALE as int;
    let k = magnitude@;
    if k >= 0 {
        lemma_scaled_reach(u.x@, k);
        lemma_scaled_reach(u.y@, k);
    }
}

/// The rounded product of `q`, between minus one and one, with a non-negative
/// `k`: no larger than `k` in absolute value, and at least one where `q` is at
/// least a half and `k` at least two.
pub proof fn lemma_scaled_reach(q: int, k: int)
    requires
        -SCALE <= q <= SCALE,
        0 <= k <= i64::MAX,
    ensures
        -k <= mul_raw(q, k) <= k,
        q >= SCALE / 2 && k >= 2 ==> mul_raw(q, k) >= 1,
        q <= -(SCALE / 2) && k >= 2 ==> mul_raw(q, k) <= -1,
{
    let s = SCALE as int;
    let p = if q >= 0 { q } else { -q };
    assert(0 <= p * k <= s * k) by (nonlinear_arith)
        requires
            0 <= p <= s,
            0 <= k,
    ;
    assert(0 <= (p * k) / s <= k) by (nonlinear_arith)
        requires
            0 <= p * k <= s * k,
            s > 0,
    ;
    assert(q * k == p * k || q * k == -(p * k)) by (nonlinear_arith)
        requires
            q == p || q == -p,
    ;
    assert(q >= 0 ==> q * k >= 0) by (nonlinear_arith)
        requires
            k >= 0,
    ;
    assert(q < 0 ==> q * k <= 0) by (nonlinear_arith)
        requires
            k >= 0,
    ;
    if p >= s / 2 && k >= 2 {
        assert(p * k >= s) by (nonlinear_arith)
            requires
                p >= s / 2,
                k >= 2,
                s == 1_000_000_000_000,
        ;
        assert((p * k) / s >= 1) by (nonlinear_arith)
            requires
                p * k >= s,
                s > 0,
        ;
    }
}

/// A uniformly drawn position of the rectangle `[0, width) x [0, height)`.
pub fn random_position(width: Scalar, height: Scalar) -> (p: Vector2)
    requires
        width@ > 0,
        height@ > 0,
    ensures
        0 <= p.x@ < width@,
        0 <= p.y@ < height@,
{
    let x = random_in_range(0, width.raw);
    let y = random_in_range(0, height.raw);
    Vector2 { x: Scalar { raw: x }, y: Scalar { raw: y } }
}

/// A direction drawn uniformly from the circle: a point of the unit square is
/// drawn until one falls inside the unit disc and off the origin, and its
/// direction is taken. After `DIRECTION_ATTEMPTS` misses the x axis is taken.
pub fn random_unit() -> (u: Vector2)
    ensures
        is_unit_direction(u),
        SCALE / 2 <= reach(u) <= SCALE,
{
    let mut tries: u32 = 0;
    while tries < DIRECTION_ATTEMPTS
        invariant
            tries <= DIRECTION_ATTEMPTS,
        decreases DIRECTION_ATTEMPTS - tries,
    {
        let a = random_in_range(-SCALE, SCALE + 1);
        let b = random_in_range(-SCALE, SCALE + 1);
        if in_unit_disc(a, b) {
            let u = (Vector2 { x: Scalar { raw: a }, y: Scalar { raw: b } }).normalize();
            proof {
                assert(direction_of(a as int, b as int) == u);
                lemma_direction_reach(a as int, b as int);
            }
            return u;
        }
        tries = tries + 1;
    }
    let u = (Vector2 { x: Scalar { raw: SCALE }, y: Scalar { raw: 0 } }).normalize();
    proof {
        lemma_direction_exists(Scalar { raw: 0 });
        lemma_direction_reach(SCALE as int, 0);
    }
    u
}

/// Whether the point with raw coordinates `a` and `b` of the unit square
/// lies in the unit disc and is not the origin.
pub fn in_unit_disc(a: i64, b: i64) -> (inside: bool)
    requires
        -SCALE <= a <= SCALE,
        -SCALE <= b <= SCALE,
    ensures
        inside == (0 < square_sum(a as int, b as int) <= SCALE * SCALE),
        inside ==> a != 0 || b != 0,
{
    assert(0 <= a * a <= 1_000_000_000_000 * 1_000_000_000_000) by (nonlinear_arith)
        requires
            -1_000_000_000_000 <= a <= 1_000_000_000_000,
    ;
    assert(0 <= b * b <= 1_000_000_000_000 * 1_000_000_000_000) by (nonlinear_arith)
        requires
            -1_000_000_000_000 <= b <= 1_000_000_000_000,
    ;
    let n: i128 = (a as i128) * (a as i128) + (b as i128) * (b as i128);
    let limit: i128 = (SCALE as i128) * (SCALE as i128);
    0 < n && n <= limit
}

/// A vector of length `magnitude` in a uniformly drawn direction. Where
/// rounding leaves nothing of the drawn direction at that length, the
/// direction of the x axis is taken: so the vector is zero only for a
/// `magnitude` of zero.
pub fn random_direction(magnitude: Scalar) -> (v: Vector2)
    ensures
        is_random_direction(v, magnitude),
        magnitude@ != 0 ==> !v.is_zero(),
        magnitude@ >= 0 ==> reach(v) <= magnitude@,
{
    let u = random_unit();
    let v = u.scale(magnitude);
    if v.x.raw == 0 && v.y.raw == 0 {
        proof {
            lemma_axis_direction(magnitude);
            lemma_direction_exists(magnitude);
        }
        Vector2 { x: magnitude, y: Scalar::zero() }
    } else {
        proof {
            lemma_scaled_direction(u, magnitude);
        }
        v
    }
}

/// An offset in a uniformly drawn direction, of a length drawn uniformly
/// from `[0, max_radius)`.
pub fn random_offset(max_radius: Scalar) -> (v: Vector2)
    requires
        max_radius@ > 0,
    ensures
        is_random_offset(v, max_radius),
        reach(v) < max_radius@,
{
    let u = random_unit();
    let radius = Scalar { raw: random_in_range(0, max_radius.raw) };
    proof {
        lemma_scaled_direction(u, radius);
    }
    u.scale(radius)
}

} // verus!
