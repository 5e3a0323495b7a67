//! Signed decimal fixed-point numbers with twelve fractional digits.

use vstd::prelude::*;

verus! {

/// Number of raw units in 1.0.
pub const SCALE: i64 = 1_000_000_000_000;

/// A fixed-point number: the value `raw / SCALE`.
///
/// Arithmetic saturates at the ends of the `i64` range and rounds toward zero.
#[derive(Clone, Copy, Debug, PartialEq, Eq, Structural)]
pub struct Scalar {
    pub raw: i64,
}

impl View for Scalar {
    type V = int;

    /// The number of raw units.
    open spec fn view(&self) -> int {
        self.raw as int
    }
}

/// `v` clamped into the `i64` range.
pub open spec fn saturate(v: int) -> int {
    if v < i64::MIN {
        i64::MIN as int
    } else if v > i64::MAX {
        i64::MAX as int
    } else {
        v
    }
}

/// Quotient of `a` by `b` rounded toward zero (`b` nonzero).
pub open spec fn trunc_div(a: int, b: int) -> int {
    if b > 0 {
        if a >= 0 {
            a / b
        } else {
            -((-a) / b)
        }
    } else {
        if a >= 0 {
            -(a / (-b))
        } else {
            (-a) / (-b)
        }
    }
}

/// Raw units of the saturating sum.
pub open spec fn add_raw(a: int, b: int) -> int {
    saturate(a + b)
}

/// Raw units of the saturating difference.
pub open spec fn sub_raw(a: int, b: int) -> int {
    saturate(a - b)
}

/// Raw units of the saturating product, rounded toward zero.
pub open spec fn mul_raw(a: int, b: int) -> int {
    saturate(trunc_div(a * b, SCALE as int))
}

/// Raw units of the saturating quotient, rounded toward zero. Division by
/// zero saturates in the direction of the dividend's sign.
pub open spec fn div_raw(a: int, b: int) -> int {
    if b == 0 {
        if a > 0 {
            i64::MAX as int
        } else if a < 0 {
            i64::MIN as int
        } else {
            0
        }
    } else {
        saturate(trunc_div(a * SCALE, b))
    }
}

/// `r` is the integer square root of `n`, rounded down.
pub open spec fn is_sqrt_floor(n: int, r: int) -> bool {
    0 <= r && r * r <= n && n < (r + 1) * (r + 1)
}

/// The integer square root of `n`, rounded down (`n` non-negative).
pub open spec fn sqrt_floor(n: int) -> int {
    choose|r: int| is_sqrt_floor(n, r)
}

/// Every non-negative number has a rounded-down square root.
pub proof fn lemma_sqrt_floor_exists(n: int)
    requires
        n >= 0,
    ensures
        is_sqrt_floor(n, sqrt_floor(n)),
    decreases n,
{
    if n == 0 {
        assert(is_sqrt_floor(0, 0));
    } else {
        lemma_sqrt_floor_exists(n - 1);
        let r = sqrt_floor(n - 1);
        if (r + 1) * (r + 1) <= n {
            assert((r + 2) * (r + 2) > (r + 1) * (r + 1)) by (nonlinear_arith)
                requires
                    r >= 0,
            ;
            assert(r + 1 + 1 == r + 2);
            assert(is_sqrt_floor(n, r + 1));
        } else {
            assert(is_sqrt_floor(n, r));
        }
    }
}

/// A number has at most one rounded-down square root.
pub proof fn lemma_sqrt_floor_unique(n: int, r: int)
    requires
        is_sqrt_floor(n, r),
    ensures
        sqrt_floor(n) == r,
{
    let s = sqrt_floor(n);
    assert(is_sqrt_floor(n, s));
    if s < r {
        assert((s + 1) * (s + 1) <= r * r) by (nonlinear_arith)
            requires
                0 <= s,
                s + 1 <= r,
        ;
    } else if r < s {
        assert((r + 1) * (r + 1) <= s * s) by (nonlinear_arith)
            requires
                0 <= r,
                r + 1 <= s,
        ;
    }
}

/// A sum of `count` numbers of the `i64` range, divided by `count`, is in
/// that range.
pub proof fn lemma_mean_in_range(total: int, count: int)
    requires
        count > 0,
        count * i64::MIN <= total <= count * i64::MAX,
    ensures
        i64::MIN <= trunc_div(total, count) <= i64::MAX,
{
    if total >= 0 {
        assert(total / count <= i64::MAX) by (nonlinear_arith)
            requires
                count > 0,
                0 <= total <= count * i64::MAX,
        ;
        assert(total / count >= 0) by (nonlinear_arith)
            requires
                count > 0,
                0 <= total,
        ;
    } else {
        assert(0 <= (-total) / count <= -i64::MIN) by (nonlinear_arith)
            requires
                count > 0,
                0 <= -total <= count * (-i64::MIN),
        ;
    }
}

/// Integer square root, rounded down.
pub fn isqrt(n: u128) -> (r: u64)
    ensures
        is_sqrt_floor(n as int, r as int),
        r as int == sqrt_floor(n as int),
{
    let mut lo: u128 = 0;
    let mut hi: u128 = 0x1_0000_0000_0000_0000;
    assert(hi * hi == 0x1_0000_0000_0000_0000_0000_0000_0000_0000) by (nonlinear_arith)
        requires
            hi == 0x1_0000_0000_0000_0000,
    ;
    while hi - lo > 1
        invariant
            lo < hi <= 0x1_0000_0000_0000_0000,
            lo * lo <= n,
            n < hi * hi,
        decreases hi - lo,
    {
        let mid: u128 = lo + (hi - lo) / 2;
        assert(mid * mid <= 0xffff_ffff_ffff_ffff * 0xffff_ffff_ffff_ffff) by (nonlinear_arith)
            requires
                0 <= mid <= 0xffff_ffff_ffff_ffff,
        ;
        if mid * mid <= n {
            lo = mid;
        } else {
            hi = mid;
        }
    }
    proof {
        assert(hi == lo + 1);
        lemma_sqrt_floor_unique(n as int, lo as int);
    }
    lo as u64
}

/// `v` clamped into the `i64` range.
pub fn saturate_i128(v: i128) -> (r: i64)
    ensures
        r as int == saturate(v as int),
{
    if v < i64::MIN as i128 {
        i64::MIN
    } else if v > i64::MAX as i128 {
        i64::MAX
    } else {
        v as i64
    }
}

impl Scalar {
    /// Saturating sum.
    pub open spec fn plus(self, other: Scalar) -> Scalar {
        Scalar { raw: add_raw(self@, other@) as i64 }
    }

    /// Saturating difference.
    pub open spec fn minus(self, other: Scalar) -> Scalar {
        Scalar { raw: sub_raw(self@, other@) as i64 }
    }

    /// Saturating product, rounded toward zero.
    pub open spec fn times(self, other: Scalar) -> Scalar {
        Scalar { raw: mul_raw(self@, other@) as i64 }
    }

    /// Saturating quotient, rounded toward zero.
    pub open spec fn over(self, other: Scalar) -> Scalar {
        Scalar { raw: div_raw(self@, other@) as i64 }
    }

    /// Saturating negation.
    pub open spec fn negated(self) -> Scalar {
        Scalar { raw: saturate(-self@) as i64 }
    }

    /// Saturating absolute value.
    pub open spec fn absolute(self) -> Scalar {
        if self@ >= 0 {
            self
        } else {
            self.negated()
        }
    }

    /// The smaller of the two.
    pub open spec fn smaller(self, other: Scalar) -> Scalar {
        if self@ <= other@ {
            self
        } else {
            other
        }
    }

    /// The larger of the two.
    pub open spec fn larger(self, other: Scalar) -> Scalar {
        if self@ >= other@ {
            self
        } else {
            other
        }
    }

    /// The number with the given count of raw units.
    pub fn from_raw(raw: i64) -> (s: Scalar)
        ensures
            s@ == raw,
    {
        Scalar { raw }
    }

    /// The count of raw units.
    pub fn raw(&self) -> (r: i64)
        ensures
            r == self@,
    {
        self.raw
    }

    /// Zero.
    pub fn zero() -> (s: Scalar)
        ensures
            s@ == 0,
    {
        Scalar { raw: 0 }
    }

    /// One.
    pub fn one() -> (s: Scalar)
        ensures
            s@ == SCALE,
    {
        Scalar { raw: SCALE }
    }

    /// Saturating sum.
    pub fn add(&self, other: Scalar) -> (s: Scalar)
        ensures
            s == self.plus(other),
    {
        Scalar { raw: saturate_i128(self.raw as i128 + other.raw as i128) }
    }

    /// Saturating difference.
    pub fn sub(&self, other: Scalar) -> (s: Scalar)
        ensures
            s == self.minus(other),
    {
        Scalar { raw: saturate_i128(self.raw as i128 - other.raw as i128) }
    }

    /// Saturating product, rounded toward zero.
    pub fn mul(&self, other: Scalar) -> (s: Scalar)
        ensures
            s == self.times(other),
    {
        let a: i64 = self.raw;
        let b: i64 = other.raw;
        assert(-0x8000_0000_0000_0000 * 0x8000_0000_0000_0000 <= a * b
            <= 0x8000_0000_0000_0000 * 0x8000_0000_0000_0000) by (nonlinear_arith)
            requires
                -0x8000_0000_0000_0000 <= a <= 0x7fff_ffff_ffff_ffff,
                -0x8000_0000_0000_0000 <= b <= 0x7fff_ffff_ffff_ffff,
        ;
        let p: i128 = (a as i128) * (b as i128);
        Scalar { raw: saturate_i128(p / (SCALE as i128)) }
    }

    /// Saturating quotient, rounded toward zero; division by zero saturates.
    pub fn div(&self, other: Scalar) -> (s: Scalar)
        ensures
            s == self.over(other),
    {
        let a: i64 = self.raw;
        let b: i64 = other.raw;
        if b == 0 {
            if a > 0 {
                Scalar { raw: i64::MAX }
            } else if a < 0 {
                Scalar { raw: i64::MIN }
            } else {
                Scalar { raw: 0 }
            }
        } else {
            assert(-0x8000_0000_0000_0000 * 1_000_000_000_000 <= a * 1_000_000_000_000
                <= 0x8000_0000_0000_0000 * 1_000_000_000_000) by (nonlinear_arith)
                requires
                    -0x8000_0000_0000_0000 <= a <= 0x7fff_ffff_ffff_ffff,
            ;
            let n: i128 = (a as i128) * (SCALE as i128);
            let q: i128 = if b > 0 {
                n / (b as i128)
            } else {
                let d: i128 = -(b as i128);
                if n >= 0 {
                    -(n / d)
                } else {
                    (-n) / d
                }
            };
            Scalar { raw: saturate_i128(q) }
        }
    }

    /// Saturating negation.
    pub fn neg(&self) -> (s: Scalar)
        ensures
            s == self.negated(),
    {
        Scalar { raw: saturate_i128(-(self.raw as i128)) }
    }

    /// Saturating absolute value.
    pub fn abs(&self) -> (s: Scalar)
        ensures
            s == self.absolute(),
    {
        if self.raw >= 0 {
            *self
        } else {
            self.neg()
        }
    }

    /// The smaller of the two.
    pub fn min(&self, other: Scalar) -> (s: Scalar)
        ensures
            s == self.smaller(other),
    {
        if self.raw <= other.raw {
            *self
        } else {
            other
        }
    }

    /// The larger of the two.
    pub fn max(&self, other: Scalar) -> (s: Scalar)
        ensures
            s == self.larger(other),
    {
        if self.raw >= other.raw {
            *self
        } else {
            other
        }
    }
}

} // verus!
