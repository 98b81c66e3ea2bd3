//! Decimal fixed-point numbers with saturating arithmetic.
//!
//! A [`Fixed`] counts millionths: the number it stands for is `raw / 1_000_000`.
//! Every operation computes the mathematically exact result, rounds it down to
//! the next millionth where it does not fall on one, and clamps it into the
//! range of `i64`.

use vstd::prelude::*;

verus! {

/// Raw counts per unit.
pub const SCALE: i64 = 1_000_000;

/// A decimal fixed-point number of six fractional digits.
#[derive(Clone, Copy, Debug, PartialEq, Eq, Structural)]
pub struct Fixed {
    pub raw: i64,
}

/// The nearest raw count that an `i64` can hold.
pub open spec fn clamp_raw(v: int) -> int {
    if v < i64::MIN {
        i64::MIN as int
    } else if v > i64::MAX {
        i64::MAX as int
    } else {
        v
    }
}

/// `n / d` rounded towards negative infinity.
pub open spec fn floor_div(n: int, d: int) -> int
    recommends
        d > 0,
{
    n / d
}

/// `n / d` rounded towards positive infinity.
pub open spec fn ceil_div(n: int, d: int) -> int
    recommends
        d > 0,
{
    -((-n) / d)
}

/// The rounded quotient times the divisor is the greatest multiple of the
/// divisor that does not exceed the dividend.
pub proof fn lemma_floor_div_bounds(n: int, d: int)
    requires
        d > 0,
    ensures
        d * floor_div(n, d) <= n < d * floor_div(n, d) + d,
{
    vstd::arithmetic::div_mod::lemma_fundamental_div_mod(n, d);
    vstd::arithmetic::div_mod::lemma_mod_bound(n, d);
}

fn clamp_wide(v: i128) -> (r: i64)
    ensures
        r as int == clamp_raw(v as int),
{
    if v < i64::MIN as i128 {
        i64::MIN
    } else if v > i64::MAX as i128 {
        i64::MAX
    } else {
        v as i64
    }
}

/// Computes `n / d` rounded towards negative infinity.
pub(crate) fn floor_div_wide(n: i128, d: i128) -> (q: i128)
    requires
        d > 0,
        n > i128::MIN,
    ensures
        q as int == floor_div(n as int, d as int),
{
    if n >= 0 {
        n / d
    } else {
        let m: i128 = -(n + 1);
        proof {
            lemma_floor_div_bounds(n as int, d as int);
            lemma_floor_div_bounds(m as int, d as int);
            let q = floor_div(n as int, d as int);
            let p = floor_div(m as int, d as int);
            assert(q == -p - 1) by (nonlinear_arith)
                requires
                    d > 0,
                    m == -(n + 1),
                    d * q <= n < d * q + d,
                    d * p <= m < d * p + d,
            ;
            assert(0 <= p <= m) by (nonlinear_arith)
                requires
                    d > 0,
                    m >= 0,
                    d * p <= m < d * p + d,
            ;
        }
        -(m / d) - 1
    }
}

/// Computes `n / d` rounded towards positive infinity.
pub(crate) fn ceil_div_wide(n: i128, d: i128) -> (q: i128)
    requires
        d > 0,
        n > i128::MIN,
    ensures
        q as int == ceil_div(n as int, d as int),
{
    let down = floor_div_wide(-n, d);
    proof {
        lemma_floor_div_bounds(-(n as int), d as int);
        assert(-0x7FFF_FFFF_FFFF_FFFF_FFFF_FFFF_FFFF_FFFF <= down) by (nonlinear_arith)
            requires
                d >= 1,
                d * down <= -n < d * down + d,
                -n >= -0x7FFF_FFFF_FFFF_FFFF_FFFF_FFFF_FFFF_FFFF,
        ;
    }
    -down
}

impl Fixed {
    /// The number zero.
    pub fn zero() -> (r: Fixed)
        ensures
            r.raw == 0,
    {
        Fixed { raw: 0 }
    }

    /// The number `raw / 1_000_000`.
    pub fn from_raw(raw: i64) -> (r: Fixed)
        ensures
            r.raw == raw,
    {
        Fixed { raw }
    }

    /// The whole number `n`, clamped into range.
    pub open spec fn spec_from_int(n: i64) -> Fixed {
        Fixed { raw: clamp_raw(n * SCALE) as i64 }
    }

    /// The whole number `n`, clamped into range.
    #[verifier::when_used_as_spec(spec_from_int)]
    pub fn from_int(n: i64) -> (r: Fixed)
        ensures
            r == Fixed::spec_from_int(n),
    {
        let a: i128 = n as i128;
        assert(-0x8000_0000_0000_0000 * 1_000_000 <= a * 1_000_000 <= 0x8000_0000_0000_0000
            * 1_000_000) by (nonlinear_arith)
            requires
                -0x8000_0000_0000_0000 <= a <= 0x8000_0000_0000_0000,
        ;
        Fixed { raw: clamp_wide(a * (SCALE as i128)) }
    }

    /// `self + other`, clamped into range.
    pub open spec fn spec_plus(self, other: Fixed) -> Fixed {
        Fixed { raw: clamp_raw(self.raw + other.raw) as i64 }
    }

    /// `self + other`, clamped into range.
    #[verifier::when_used_as_spec(spec_plus)]
    pub fn plus(self, other: Fixed) -> (r: Fixed)
        ensures
            r == self.spec_plus(other),
    {
        Fixed { raw: clamp_wide(self.raw as i128 + other.raw as i128) }
    }

    /// `self - other`, clamped into range.
    pub open spec fn spec_minus(self, other: Fixed) -> Fixed {
        Fixed { raw: clamp_raw(self.raw - other.raw) as i64 }
    }

    /// `self - other`, clamped into range.
    #[verifier::when_used_as_spec(spec_minus)]
    pub fn minus(self, other: Fixed) -> (r: Fixed)
        ensures
            r == self.spec_minus(other),
    {
        Fixed { raw: clamp_wide(self.raw as i128 - other.raw as i128) }
    }

    /// `-self`, clamped into range.
    pub open spec fn spec_neg(self) -> Fixed {
        Fixed { raw: clamp_raw(-self.raw) as i64 }
    }

    /// `-self`, clamped into range.
    #[verifier::when_used_as_spec(spec_neg)]
    pub fn neg(self) -> (r: Fixed)
        ensures
            r == self.spec_neg(),
    {
        Fixed { raw: clamp_wide(-(self.raw as i128)) }
    }

    /// The distance of `self` from zero, clamped into range.
    pub open spec fn spec_abs(self) -> Fixed {
        if self.raw < 0 {
            self.spec_neg()
        } else {
            self
        }
    }

    /// The distance of `self` from zero, clamped into range.
    #[verifier::when_used_as_spec(spec_abs)]
    pub fn abs(self) -> (r: Fixed)
        ensures
            r == self.spec_abs(),
    {
        if self.raw < 0 {
            self.neg()
        } else {
            self
        }
    }

    /// `self * other`, rounded down to a millionth and clamped into range.
    pub open spec fn spec_times(self, other: Fixed) -> Fixed {
        Fixed { raw: clamp_raw(floor_div(self.raw * other.raw, SCALE as int)) as i64 }
    }

    /// `self * other`, rounded down to a millionth and clamped into range.
    #[verifier::when_used_as_spec(spec_times)]
    pub fn times(self, other: Fixed) -> (r: Fixed)
        ensures
            r == self.spec_times(other),
    {
        self.scaled(other.raw, SCALE)
    }

    /// `self * num / den`, rounded down to a millionth and clamped into range.
    pub open spec fn spec_scaled(self, num: i64, den: i64) -> Fixed {
        Fixed { raw: clamp_raw(floor_div(self.raw * num, den as int)) as i64 }
    }

    /// `self * num / den`, rounded down to a millionth and clamped into range.
    #[verifier::when_used_as_spec(spec_scaled)]
    pub fn scaled(self, num: i64, den: i64) -> (r: Fixed)
        requires
            den > 0,
        ensures
            r == self.spec_scaled(num, den),
    {
        let a: i128 = self.raw as i128;
        let b: i128 = num as i128;
        assert(-0x4000_0000_0000_0000_0000_0000_0000_0000 <= a * b
            <= 0x4000_0000_0000_0000_0000_0000_0000_0000) by (nonlinear_arith)
            requires
                -0x8000_0000_0000_0000 <= a <= 0x8000_0000_0000_0000,
                -0x8000_0000_0000_0000 <= b <= 0x8000_0000_0000_0000,
        ;
        Fixed { raw: clamp_wide(floor_div_wide(a * b, den as i128)) }
    }

    /// The smaller of the two.
    pub open spec fn spec_min(self, other: Fixed) -> Fixed {
        if other.raw < self.raw {
            other
        } else {
            self
        }
    }

    /// The smaller of the two.
    #[verifier::when_used_as_spec(spec_min)]
    pub fn min(self, other: Fixed) -> (r: Fixed)
        ensures
            r == self.spec_min(other),
    {
        if other.raw < self.raw {
            other
        } else {
            self
        }
    }

    /// The larger of the two.
    pub open spec fn spec_max(self, other: Fixed) -> Fixed {
        if other.raw > self.raw {
            other
        } else {
            self
        }
    }

    /// The larger of the two.
    #[verifier::when_used_as_spec(spec_max)]
    pub fn max(self, other: Fixed) -> (r: Fixed)
        ensures
            r == self.spec_max(other),
    {
        if other.raw > self.raw {
            other
        } else {
            self
        }
    }

    /// `self` moved into `[low, high]`.
    pub open spec fn spec_clamp(self, low: Fixed, high: Fixed) -> Fixed {
        if self.raw < low.raw {
            low
        } else if self.raw > high.raw {
            high
        } else {
            self
        }
    }

    /// `self` moved into `[low, high]`.
    #[verifier::when_used_as_spec(spec_clamp)]
    pub fn clamp(self, low: Fixed, high: Fixed) -> (r: Fixed)
        ensures
            r == self.spec_clamp(low, high),
    {
        if self.raw < low.raw {
            low
        } else if self.raw > high.raw {
            high
        } else {
            self
        }
    }

    /// The whole number nearest to `self`; a number halfway between two goes
    /// to the one further from zero.
    pub open spec fn spec_round(self) -> int {
        if self.raw >= 0 {
            floor_div(self.raw + 500_000, SCALE as int)
        } else {
            -floor_div(-self.raw + 500_000, SCALE as int)
        }
    }

    /// Rounds to the nearest whole number, away from zero where two are
    /// equally near.
    pub fn round(self) -> (r: i64)
        ensures
            r == self.spec_round(),
    {
        let raw: i128 = self.raw as i128;
        if raw >= 0 {
            let q = floor_div_wide(raw + 500_000, SCALE as i128);
            proof {
                lemma_floor_div_bounds(raw + 500_000, SCALE as int);
            }
            q as i64
        } else {
            let q = floor_div_wide(-raw + 500_000, SCALE as i128);
            proof {
                lemma_floor_div_bounds(-raw + 500_000, SCALE as int);
            }
            (-q) as i64
        }
    }
}

} // verus!
