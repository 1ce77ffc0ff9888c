//! Fixed-point decimal amounts with eight fractional digits.
//!
//! A `Decimal` holds the amount multiplied by `SCALE` in a signed 64-bit
//! integer. Every operation is total: a result that leaves the range is
//! clamped to the nearest bound, and quotients are rounded toward zero.

use vstd::prelude::*;

verus! {

/// Number of raw units in one whole unit.
pub const SCALE: i64 = 100_000_000;

/// Largest raw value.
pub const RAW_MAX: i64 = 0x7fff_ffff_ffff_ffff;

/// Smallest raw value.
pub const RAW_MIN: i64 = -0x7fff_ffff_ffff_ffff - 1;

/// `v` clamped into the raw range.
pub open spec fn clamp(v: int) -> int {
    if v > RAW_MAX as int {
        RAW_MAX as int
    } else if v < RAW_MIN as int {
        RAW_MIN as int
    } else {
        v
    }
}

/// Absolute value of an integer.
pub open spec fn magnitude(v: int) -> int {
    if v < 0 {
        -v
    } else {
        v
    }
}

/// Quotient of `a` by `b` rounded toward zero (`b` is not zero).
pub open spec fn trunc_div(a: int, b: int) -> int {
    if (a >= 0) == (b > 0) {
        magnitude(a) / magnitude(b)
    } else {
        -(magnitude(a) / magnitude(b))
    }
}

/// `n / d` rounded to the nearest whole number, halves away from zero, for
/// `d` above zero.
pub open spec fn round_div(n: int, d: int) -> int {
    let q = trunc_div(n, d);
    let rest = n - q * d;
    if 2 * magnitude(rest) >= d {
        if n >= 0 {
            q + 1
        } else {
            q - 1
        }
    } else {
        q
    }
}

/// Raw sum, clamped.
pub open spec fn sat_add(a: int, b: int) -> int {
    clamp(a + b)
}

/// Raw difference, clamped.
pub open spec fn sat_sub(a: int, b: int) -> int {
    clamp(a - b)
}

/// Raw product of two amounts, rounded toward zero and clamped.
pub open spec fn sat_mul(a: int, b: int) -> int {
    clamp(trunc_div(a * b, SCALE as int))
}

/// Raw quotient of two amounts, rounded toward zero and clamped. Division by
/// zero gives the bound on the side of the dividend's sign, and zero for a
/// zero dividend.
pub open spec fn sat_div(a: int, b: int) -> int {
    if b == 0 {
        if a > 0 {
            RAW_MAX as int
        } else if a < 0 {
            RAW_MIN as int
        } else {
            0
        }
    } else {
        clamp(trunc_div(a * (SCALE as int), b))
    }
}

/// Quotients rounded toward zero grow with the dividend, for a divisor
/// above zero.
pub proof fn lemma_trunc_div_monotone(a: int, b: int, d: int)
    requires
        a <= b,
        d > 0,
    ensures
        trunc_div(a, d) <= trunc_div(b, d),
{
    if a >= 0 {
        vstd::arithmetic::div_mod::lemma_div_is_ordered(a, b, d);
    } else if b < 0 {
        vstd::arithmetic::div_mod::lemma_div_is_ordered(-b, -a, d);
    } else {
        vstd::arithmetic::div_mod::lemma_div_is_ordered(0, -a, d);
        vstd::arithmetic::div_mod::lemma_div_is_ordered(0, b, d);
    }
}

/// Products and quotients of amounts grow with their first amount, for a
/// second amount above zero.
pub proof fn lemma_sat_monotone(a: int, b: int, c: int)
    requires
        a <= b,
        c > 0,
    ensures
        sat_mul(a, c) <= sat_mul(b, c),
        sat_div(a, c) <= sat_div(b, c),
{
    assert(a * c <= b * c) by (nonlinear_arith)
        requires
            a <= b,
            c > 0,
    ;
    lemma_trunc_div_monotone(a * c, b * c, SCALE as int);
    lemma_trunc_div_monotone(a * (SCALE as int), b * (SCALE as int), c);
}

/// The product of two integers of raw size stays well inside 128 bits.
pub proof fn lemma_product_fits(a: int, b: int)
    requires
        -0x8000_0000_0000_0000 <= a <= 0x8000_0000_0000_0000,
        -0x8000_0000_0000_0000 <= b <= 0x8000_0000_0000_0000,
    ensures
        -0x4000_0000_0000_0000_0000_0000_0000_0000 <= a * b
            <= 0x4000_0000_0000_0000_0000_0000_0000_0000,
{
    assert(-0x4000_0000_0000_0000_0000_0000_0000_0000 <= a * b
        <= 0x4000_0000_0000_0000_0000_0000_0000_0000) by (nonlinear_arith)
        requires
            -0x8000_0000_0000_0000 <= a <= 0x8000_0000_0000_0000,
            -0x8000_0000_0000_0000 <= b <= 0x8000_0000_0000_0000,
    ;
}

/// Quotient of two wide integers, rounded toward zero.
pub fn wide_div(a: i128, b: i128) -> (q: i128)
    requires
        b != 0,
        a > i128::MIN,
        b > i128::MIN,
    ensures
        q as int == trunc_div(a as int, b as int),
        magnitude(q as int) <= magnitude(a as int),
{
    let na: u128 = if a < 0 { (-a) as u128 } else { a as u128 };
    let nb: u128 = if b < 0 { (-b) as u128 } else { b as u128 };
    let nq: u128 = na / nb;
    assert(nq <= na) by (nonlinear_arith)
        requires
            nq == na / nb,
            nb >= 1,
    ;
    if (a >= 0) == (b > 0) {
        nq as i128
    } else {
        -(nq as i128)
    }
}

/// The quotient rounded toward zero leaves a rest smaller than the
/// divisor, and times the divisor does not pass the dividend.
pub proof fn lemma_trunc_div_rest(n: int, d: int)
    requires
        d > 0,
    ensures
        magnitude(trunc_div(n, d) * d) <= magnitude(n),
        magnitude(n - trunc_div(n, d) * d) < d,
        magnitude(trunc_div(n, d)) <= magnitude(n),
{
    let m = magnitude(n);
    let k = m / d;
    assert(m == d * k + m % d && 0 <= m % d < d && 0 <= k <= m && 0 <= d * k <= m) by (nonlinear_arith)
        requires
            d > 0,
            m >= 0,
            k == m / d,
    ;
    if n >= 0 {
        assert(trunc_div(n, d) * d == d * k) by (nonlinear_arith)
            requires
                trunc_div(n, d) == k,
        ;
    } else {
        assert(trunc_div(n, d) * d == -(d * k)) by (nonlinear_arith)
            requires
                trunc_div(n, d) == -k,
        ;
    }
}

/// `n / d` rounded to the nearest whole number, halves away from zero.
pub fn wide_round_div(n: i128, d: i128) -> (res: i128)
    requires
        0 < d <= 0x1_0000_0000_0000_0000,
        -0x7fff_ffff_ffff_ffff_ffff_ffff_ffff_ffff < n < 0x7fff_ffff_ffff_ffff_ffff_ffff_ffff_ffff,
    ensures
        res as int == round_div(n as int, d as int),
        magnitude(res as int) <= magnitude(n as int) + 1,
{
    let q = wide_div(n, d);
    proof {
        lemma_trunc_div_rest(n as int, d as int);
        assert(q * d == trunc_div(n as int, d as int) * d);
    }
    let rest: i128 = n - q * d;
    assert(magnitude(rest as int) < d);
    let twice: i128 = if rest < 0 {
        (0 - rest) * 2
    } else {
        rest * 2
    };
    if twice >= d {
        if n >= 0 {
            q + 1
        } else {
            q - 1
        }
    } else {
        q
    }
}

/// A wide integer clamped into the raw range.
pub fn narrow(v: i128) -> (r: i64)
    ensures
        r as int == clamp(v as int),
{
    if v > RAW_MAX as i128 {
        RAW_MAX
    } else if v < RAW_MIN as i128 {
        RAW_MIN
    } else {
        v as i64
    }
}

/// The amount whose raw value is `v`, for `v` inside the raw range.
pub open spec fn dec(v: int) -> Decimal {
    Decimal { raw: v as i64 }
}

/// A signed amount with eight fractional decimal digits.
#[derive(Clone, Copy, Debug, PartialEq, Eq, Structural, PartialOrd, Ord, Hash)]
pub struct Decimal {
    /// The amount multiplied by `SCALE`.
    pub raw: i64,
}

impl View for Decimal {
    type V = int;

    open spec fn view(&self) -> int {
        self.raw as int
    }
}

impl Decimal {
    /// The amount with the given raw value.
    pub fn from_raw(raw: i64) -> (r: Decimal)
        ensures
            r.raw == raw,
    {
        Decimal { raw }
    }

    /// Zero.
    pub fn zero() -> (r: Decimal)
        ensures
            r@ == 0,
    {
        Decimal { raw: 0 }
    }

    /// The whole number `units`, clamped to the representable range.
    pub fn from_int(units: i64) -> (r: Decimal)
        ensures
            r@ == clamp(units as int * (SCALE as int)),
    {
        let a: i128 = units as i128;
        proof {
            lemma_product_fits(a as int, SCALE as int);
        }
        let wide: i128 = a * (SCALE as i128);
        Decimal { raw: narrow(wide) }
    }

    /// Whether the amount is above zero.
    pub fn is_positive(self) -> (r: bool)
        ensures
            r == (self@ > 0),
    {
        self.raw > 0
    }

    /// Whether `self` is below `other`.
    pub fn lt(self, other: Decimal) -> (r: bool)
        ensures
            r == (self@ < other@),
    {
        self.raw < other.raw
    }

    /// Whether `self` is at most `other`.
    pub fn le(self, other: Decimal) -> (r: bool)
        ensures
            r == (self@ <= other@),
    {
        self.raw <= other.raw
    }

    /// Whether `self` is above `other`.
    pub fn gt(self, other: Decimal) -> (r: bool)
        ensures
            r == (self@ > other@),
    {
        self.raw > other.raw
    }

    /// Whether `self` is at least `other`.
    pub fn ge(self, other: Decimal) -> (r: bool)
        ensures
            r == (self@ >= other@),
    {
        self.raw >= other.raw
    }

    /// Sum, clamped.
    pub fn plus(self, other: Decimal) -> (r: Decimal)
        ensures
            r@ == sat_add(self@, other@),
    {
        Decimal { raw: narrow(self.raw as i128 + other.raw as i128) }
    }

    /// Difference, clamped.
    pub fn minus(self, other: Decimal) -> (r: Decimal)
        ensures
            r@ == sat_sub(self@, other@),
    {
        Decimal { raw: narrow(self.raw as i128 - other.raw as i128) }
    }

    /// Product, rounded toward zero and clamped.
    pub fn times(self, other: Decimal) -> (r: Decimal)
        ensures
            r@ == sat_mul(self@, other@),
    {
        let a: i128 = self.raw as i128;
        let b: i128 = other.raw as i128;
        proof {
            lemma_product_fits(a as int, b as int);
        }
        let p: i128 = a * b;
        Decimal { raw: narrow(wide_div(p, SCALE as i128)) }
    }

    /// Quotient, rounded toward zero and clamped; see `sat_div` for a zero
    /// divisor.
    pub fn over(self, other: Decimal) -> (r: Decimal)
        ensures
            r@ == sat_div(self@, other@),
    {
        if other.raw == 0 {
            if self.raw > 0 {
                Decimal { raw: RAW_MAX }
            } else if self.raw < 0 {
                Decimal { raw: RAW_MIN }
            } else {
                Decimal { raw: 0 }
            }
        } else {
            let a: i128 = self.raw as i128;
            proof {
                lemma_product_fits(a as int, SCALE as int);
            }
            let p: i128 = a * (SCALE as i128);
            Decimal { raw: narrow(wide_div(p, other.raw as i128)) }
        }
    }
}

} // verus!
