//! Signed fixed-point decimal numbers with eight fractional digits.
//!
//! A [`Decimal`] stores an integer count of units of `10^-8`. Sums and
//! differences are exact. Products and quotients are rounded to the nearest
//! unit, ties going to the even neighbour.

use vstd::prelude::*;

verus! {

/// Number of raw units that make up the value one.
pub const SCALE: i64 = 100_000_000;

/// Largest magnitude of a raw value.
pub const MAX_RAW: i64 = 9_223_372_036_854_775_807;

/// Number of fractional decimal digits.
pub const FRAC_DIGITS: u8 = 8;

/// `SCALE` as a mathematical integer.
pub open spec fn scale() -> int {
    100_000_000
}

/// The raw values a [`Decimal`] is meant to hold: a range symmetric around zero.
pub open spec fn in_range(x: int) -> bool {
    -9_223_372_036_854_775_807 <= x <= 9_223_372_036_854_775_807
}

/// `n / d` for `n >= 0` and `d > 0`, rounded to the nearest integer, ties to even.
pub open spec fn round_nonneg(n: int, d: int) -> int
    recommends
        n >= 0,
        d > 0,
{
    let q = n / d;
    let r = n % d;
    if 2 * r < d || (2 * r == d && q % 2 == 0) {
        q
    } else {
        q + 1
    }
}

/// `n / d` for `d > 0`, rounded to the nearest integer, ties to even.
pub open spec fn div_round(n: int, d: int) -> int
    recommends
        d > 0,
{
    if n >= 0 {
        round_nonneg(n, d)
    } else {
        -round_nonneg(-n, d)
    }
}

/// Raw value of the product of two raw values.
pub open spec fn mul_raw(a: int, b: int) -> int {
    div_round(a * b, scale())
}

/// Raw value of the quotient of two raw values, `b != 0`.
pub open spec fn div_raw(a: int, b: int) -> int
    recommends
        b != 0,
{
    if b > 0 {
        div_round(a * scale(), b)
    } else {
        div_round(-(a * scale()), -b)
    }
}

/// Remainder of `a / b` with the quotient truncated towards zero, `b != 0`.
pub open spec fn rem_raw(a: int, b: int) -> int
    recommends
        b != 0,
{
    let m = if b >= 0 {
        b
    } else {
        -b
    };
    if a >= 0 {
        a % m
    } else {
        -((-a) % m)
    }
}

/// Ten to the power `k`, for `k` up to eight.
pub open spec fn pow10(k: int) -> int {
    if k <= 0 {
        1
    } else if k == 1 {
        10
    } else if k == 2 {
        100
    } else if k == 3 {
        1_000
    } else if k == 4 {
        10_000
    } else if k == 5 {
        100_000
    } else if k == 6 {
        1_000_000
    } else if k == 7 {
        10_000_000
    } else {
        100_000_000
    }
}

/// The rounded quotient lies within half a unit of the exact one, and a tie
/// is only ever resolved to an even result.
pub proof fn lemma_div_round_bounds(n: int, d: int)
    requires
        d > 0,
    ensures
        2 * n - d <= 2 * (div_round(n, d) * d) <= 2 * n + d,
        2 * (div_round(n, d) * d) == 2 * n + d ==> div_round(n, d) % 2 == 0,
        2 * (div_round(n, d) * d) == 2 * n - d ==> div_round(n, d) % 2 == 0,
{
    let m = if n >= 0 {
        n
    } else {
        -n
    };
    let q = m / d;
    let r = m % d;
    let res = round_nonneg(m, d);
    assert(m == q * d + r && 0 <= r < d) by (nonlinear_arith)
        requires
            d > 0,
            q == m / d,
            r == m % d,
    ;
    assert((q + 1) * d == q * d + d) by (nonlinear_arith);
    assert((-res) * d == -(res * d)) by (nonlinear_arith);
    if n >= 0 {
        assert(div_round(n, d) == res);
    } else {
        assert(div_round(n, d) == -res);
    }
}

/// Rounding never reverses the order of two exact quotients.
pub proof fn lemma_div_round_monotone(n1: int, d1: int, n2: int, d2: int)
    requires
        d1 > 0,
        d2 > 0,
        n1 * d2 <= n2 * d1,
    ensures
        div_round(n1, d1) <= div_round(n2, d2),
{
    let a = div_round(n1, d1);
    let b = div_round(n2, d2);
    lemma_div_round_bounds(n1, d1);
    lemma_div_round_bounds(n2, d2);
    if a > b {
        // (2a - 1) d1 <= 2 n1  and  2 n2 <= (2b + 1) d2
        assert((2 * a - 1) * d1 == 2 * (a * d1) - d1) by (nonlinear_arith);
        assert((2 * b + 1) * d2 == 2 * (b * d2) + d2) by (nonlinear_arith);
        assert(((2 * a - 1) * d1) * d2 <= (2 * n1) * d2) by (nonlinear_arith)
            requires
                (2 * a - 1) * d1 <= 2 * n1,
                d2 > 0,
        ;
        assert((2 * n2) * d1 <= ((2 * b + 1) * d2) * d1) by (nonlinear_arith)
            requires
                2 * n2 <= (2 * b + 1) * d2,
                d1 > 0,
        ;
        assert((2 * n1) * d2 == 2 * (n1 * d2)) by (nonlinear_arith);
        assert((2 * n2) * d1 == 2 * (n2 * d1)) by (nonlinear_arith);
        assert(((2 * a - 1) * d1) * d2 == (2 * a - 1) * (d1 * d2)) by (nonlinear_arith);
        assert(((2 * b + 1) * d2) * d1 == (2 * b + 1) * (d1 * d2)) by (nonlinear_arith);
        assert(d1 * d2 > 0) by (nonlinear_arith)
            requires
                d1 > 0,
                d2 > 0,
        ;
        let p = d1 * d2;
        assert(2 * a - 1 <= 2 * b + 1) by (nonlinear_arith)
            requires
                (2 * a - 1) * p <= (2 * b + 1) * p,
                p > 0,
        ;
        assert(a == b + 1);
        // every inequality above is an equality: both quotients are the same tie
        assert((2 * a - 1) * p == (2 * b + 1) * p);
        assert(((2 * a - 1) * d1) * d2 == (2 * n1) * d2);
        assert((2 * a - 1) * d1 == 2 * n1) by (nonlinear_arith)
            requires
                ((2 * a - 1) * d1) * d2 == (2 * n1) * d2,
                d2 > 0,
        ;
        assert((2 * n2) * d1 == ((2 * b + 1) * d2) * d1);
        assert(2 * n2 == (2 * b + 1) * d2) by (nonlinear_arith)
            requires
                (2 * n2) * d1 == ((2 * b + 1) * d2) * d1,
                d1 > 0,
        ;
        assert(a % 2 == 0);
        assert(b % 2 == 0);
        assert(false);
    }
}

/// An exact quotient is returned unchanged.
pub proof fn lemma_div_round_exact(k: int, d: int)
    requires
        d > 0,
    ensures
        div_round(k * d, d) == k,
{
    let r = div_round(k * d, d);
    lemma_div_round_bounds(k * d, d);
    assert(2 * (r * d) - 2 * (k * d) == (2 * (r - k)) * d) by (nonlinear_arith);
    assert(r == k) by (nonlinear_arith)
        requires
            -d <= (2 * (r - k)) * d <= d,
            d > 0,
    ;
}

/// Rounding keeps the sign of a non-negative numerator and never exceeds it.
pub proof fn lemma_div_round_nonneg(n: int, d: int)
    requires
        n >= 0,
        d > 0,
    ensures
        0 <= div_round(n, d) <= n,
{
    let q = n / d;
    let r = n % d;
    assert(n == q * d + r && 0 <= r < d && q >= 0) by (nonlinear_arith)
        requires
            d > 0,
            n >= 0,
            q == n / d,
            r == n % d,
    ;
    if div_round(n, d) == q + 1 {
        assert(d >= 2);
        assert(q * d >= 2 * q) by (nonlinear_arith)
            requires
                q >= 0,
                d >= 2,
        ;
        assert(r >= 1);
    } else {
        assert(q * d >= q) by (nonlinear_arith)
            requires
                q >= 0,
                d >= 1,
        ;
    }
}

/// `n / d` for `n >= 0`, `d > 0`, rounded half to even.
fn round_nonneg_exec(n: i128, d: i128) -> (res: i128)
    requires
        n >= 0,
        d > 0,
    ensures
        res == round_nonneg(n as int, d as int),
        0 <= res <= n,
{
    let q: i128 = n / d;
    let r: i128 = n % d;
    proof {
        lemma_div_round_nonneg(n as int, d as int);
        assert(n == q * d + r && 0 <= r < d && q >= 0) by (nonlinear_arith)
            requires
                d > 0,
                n >= 0,
                q == n as int / d as int,
                r == n as int % d as int,
        ;
    }
    let rest: i128 = d - r;
    if r < rest || (r == rest && q % 2 == 0) {
        q
    } else {
        q + 1
    }
}

/// `n / d` for `d > 0`, rounded half to even.
pub fn div_round_exec(n: i128, d: i128) -> (res: i128)
    requires
        d > 0,
        n > i128::MIN,
    ensures
        res == div_round(n as int, d as int),
{
    if n >= 0 {
        round_nonneg_exec(n, d)
    } else {
        let m: i128 = round_nonneg_exec(-n, d);
        -m
    }
}

/// A signed decimal number with eight fractional digits.
#[derive(Clone, Copy, Debug, PartialEq, Eq, Structural, PartialOrd, Ord, Hash)]
pub struct Decimal {
    /// The value in units of `10^-8`.
    pub raw: i64,
}

impl View for Decimal {
    type V = int;

    open spec fn view(&self) -> int {
        self.raw as int
    }
}

impl Decimal {
    /// The raw value lies in the symmetric range.
    pub open spec fn wf(self) -> bool {
        in_range(self@)
    }

    /// The decimal with the given raw value.
    pub fn from_raw(raw: i64) -> (r: Decimal)
        ensures
            r@ == raw,
    {
        Decimal { raw }
    }

    /// The raw value: the number in units of `10^-8`.
    pub fn raw(self) -> (r: i64)
        ensures
            r == self@,
    {
        self.raw
    }

    /// The number zero.
    pub fn zero() -> (r: Decimal)
        ensures
            r@ == 0,
    {
        Decimal { raw: 0 }
    }

    /// The number one.
    pub fn one() -> (r: Decimal)
        ensures
            r@ == scale(),
    {
        Decimal { raw: SCALE }
    }

    /// The number `coeff * 10^-n_frac_digits`, or `None` if it has more than
    /// eight fractional digits or is too large.
    pub fn new(coeff: i64, n_frac_digits: u8) -> (r: Option<Decimal>)
        ensures
            r.is_some() <==> n_frac_digits <= 8 && in_range(coeff * pow10(8 - n_frac_digits)),
            r.is_some() ==> r.unwrap()@ == coeff * pow10(8 - n_frac_digits),
    {
        if n_frac_digits > FRAC_DIGITS {
            return None;
        }
        let k: u8 = FRAC_DIGITS - n_frac_digits;
        let p: i64 = if k == 0 {
            1
        } else if k == 1 {
            10
        } else if k == 2 {
            100
        } else if k == 3 {
            1_000
        } else if k == 4 {
            10_000
        } else if k == 5 {
            100_000
        } else if k == 6 {
            1_000_000
        } else if k == 7 {
            10_000_000
        } else {
            100_000_000
        };
        assert(p == pow10(8 - n_frac_digits));
        assert(-0x8000_0000_0000_0000 * 100_000_000 <= coeff * p <= 0x8000_0000_0000_0000
            * 100_000_000) by (nonlinear_arith)
            requires
                -0x8000_0000_0000_0000 <= coeff < 0x8000_0000_0000_0000,
                1 <= p <= 100_000_000,
        ;
        let wide: i128 = (coeff as i128) * (p as i128);
        if wide < -(MAX_RAW as i128) || wide > MAX_RAW as i128 {
            None
        } else {
            Some(Decimal { raw: wide as i64 })
        }
    }

    /// Whether the number is zero.
    pub fn is_zero(self) -> (r: bool)
        ensures
            r == (self@ == 0),
    {
        self.raw == 0
    }

    /// Whether the number is greater than zero.
    pub fn is_positive(self) -> (r: bool)
        ensures
            r == (self@ > 0),
    {
        self.raw > 0
    }

    /// Whether the number is less than zero.
    pub fn is_negative(self) -> (r: bool)
        ensures
            r == (self@ < 0),
    {
        self.raw < 0
    }

    /// `self < other`.
    pub fn lt(self, other: Decimal) -> (r: bool)
        ensures
            r == (self@ < other@),
    {
        self.raw < other.raw
    }

    /// `self <= other`.
    pub fn le(self, other: Decimal) -> (r: bool)
        ensures
            r == (self@ <= other@),
    {
        self.raw <= other.raw
    }

    /// `self > other`.
    pub fn gt(self, other: Decimal) -> (r: bool)
        ensures
            r == (self@ > other@),
    {
        self.raw > other.raw
    }

    /// `self >= other`.
    pub fn ge(self, other: Decimal) -> (r: bool)
        ensures
            r == (self@ >= other@),
    {
        self.raw >= other.raw
    }

    /// The smaller of two numbers.
    pub fn min(self, other: Decimal) -> (r: Decimal)
        ensures
            r@ == if self@ <= other@ {
                self@
            } else {
                other@
            },
    {
        if self.raw <= other.raw {
            self
        } else {
            other
        }
    }

    /// The larger of two numbers.
    pub fn max(self, other: Decimal) -> (r: Decimal)
        ensures
            r@ == if self@ >= other@ {
                self@
            } else {
                other@
            },
    {
        if self.raw >= other.raw {
            self
        } else {
            other
        }
    }

    /// The sum, which has to be representable.
    pub fn add(self, other: Decimal) -> (r: Decimal)
        requires
            in_range(self@ + other@),
        ensures
            r@ == self@ + other@,
    {
        Decimal { raw: self.raw + other.raw }
    }

    /// The difference, which has to be representable.
    pub fn sub(self, other: Decimal) -> (r: Decimal)
        requires
            in_range(self@ - other@),
        ensures
            r@ == self@ - other@,
    {
        Decimal { raw: self.raw - other.raw }
    }

    /// The sum, or `None` if it is not representable.
    pub fn checked_add(self, other: Decimal) -> (r: Option<Decimal>)
        ensures
            r.is_some() <==> in_range(self@ + other@),
            r.is_some() ==> r.unwrap()@ == self@ + other@,
    {
        let wide: i128 = self.raw as i128 + other.raw as i128;
        if wide < -(MAX_RAW as i128) || wide > MAX_RAW as i128 {
            None
        } else {
            Some(Decimal { raw: wide as i64 })
        }
    }

    /// The difference, or `None` if it is not representable.
    pub fn checked_sub(self, other: Decimal) -> (r: Option<Decimal>)
        ensures
            r.is_some() <==> in_range(self@ - other@),
            r.is_some() ==> r.unwrap()@ == self@ - other@,
    {
        let wide: i128 = self.raw as i128 - other.raw as i128;
        if wide < -(MAX_RAW as i128) || wide > MAX_RAW as i128 {
            None
        } else {
            Some(Decimal { raw: wide as i64 })
        }
    }

    /// The number with the opposite sign.
    pub fn neg(self) -> (r: Decimal)
        requires
            self.wf(),
        ensures
            r@ == -self@,
    {
        Decimal { raw: -self.raw }
    }

    /// The magnitude.
    pub fn abs(self) -> (r: Decimal)
        requires
            self.wf(),
        ensures
            r@ == if self@ >= 0 {
                self@
            } else {
                -self@
            },
    {
        if self.raw >= 0 {
            self
        } else {
            Decimal { raw: -self.raw }
        }
    }

    /// The product rounded half to even, or `None` if it is not representable.
    pub fn checked_mul(self, other: Decimal) -> (r: Option<Decimal>)
        ensures
            r.is_some() <==> in_range(mul_raw(self@, other@)),
            r.is_some() ==> r.unwrap()@ == mul_raw(self@, other@),
    {
        assert(-0x4000_0000_0000_0000_0000_0000_0000_0000 <= self@ * other@
            <= 0x4000_0000_0000_0000_0000_0000_0000_0000) by (nonlinear_arith)
            requires
                -0x8000_0000_0000_0000 <= self@ < 0x8000_0000_0000_0000,
                -0x8000_0000_0000_0000 <= other@ < 0x8000_0000_0000_0000,
        ;
        let wide: i128 = (self.raw as i128) * (other.raw as i128);
        let q: i128 = div_round_exec(wide, SCALE as i128);
        if q < -(MAX_RAW as i128) || q > MAX_RAW as i128 {
            None
        } else {
            Some(Decimal { raw: q as i64 })
        }
    }

    /// The product rounded half to even, which has to be representable.
    pub fn mul(self, other: Decimal) -> (r: Decimal)
        requires
            in_range(mul_raw(self@, other@)),
        ensures
            r@ == mul_raw(self@, other@),
    {
        self.checked_mul(other).unwrap()
    }

    /// The quotient rounded half to even, or `None` if it is not
    /// representable. The divisor is not zero.
    pub fn checked_div(self, other: Decimal) -> (r: Option<Decimal>)
        requires
            other@ != 0,
        ensures
            r.is_some() <==> in_range(div_raw(self@, other@)),
            r.is_some() ==> r.unwrap()@ == div_raw(self@, other@),
    {
        assert(-0x8000_0000_0000_0000 * 100_000_000 <= self@ * 100_000_000
            <= 0x8000_0000_0000_0000 * 100_000_000) by (nonlinear_arith)
            requires
                -0x8000_0000_0000_0000 <= self@ < 0x8000_0000_0000_0000,
        ;
        let wide: i128 = (self.raw as i128) * (SCALE as i128);
        let q: i128 = if other.raw > 0 {
            div_round_exec(wide, other.raw as i128)
        } else {
            div_round_exec(-wide, -(other.raw as i128))
        };
        if q < -(MAX_RAW as i128) || q > MAX_RAW as i128 {
            None
        } else {
            Some(Decimal { raw: q as i64 })
        }
    }

    /// The quotient rounded half to even, which has to be representable. The
    /// divisor is not zero.
    pub fn div(self, other: Decimal) -> (r: Decimal)
        requires
            other@ != 0,
            in_range(div_raw(self@, other@)),
        ensures
            r@ == div_raw(self@, other@),
    {
        self.checked_div(other).unwrap()
    }

    /// The remainder of the division truncated towards zero. The divisor is
    /// not zero.
    pub fn rem(self, other: Decimal) -> (r: Decimal)
        requires
            other@ != 0,
        ensures
            r@ == rem_raw(self@, other@),
    {
        let a: i128 = self.raw as i128;
        let b: i128 = other.raw as i128;
        let m: i128 = if b >= 0 {
            b
        } else {
            -b
        };
        if a >= 0 {
            let x: i128 = a % m;
            assert(0 <= x < m) by (nonlinear_arith)
                requires
                    x == a as int % m as int,
                    m > 0,
            ;
            Decimal { raw: x as i64 }
        } else {
            let x: i128 = (-a) % m;
            assert(0 <= x < m) by (nonlinear_arith)
                requires
                    x == (-a) as int % m as int,
                    m > 0,
            ;
            Decimal { raw: (-x) as i64 }
        }
    }
}

} // verus!
