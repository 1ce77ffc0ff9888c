//! Sums, means, deviations and square roots of fixed-point amounts.

use crate::decimal::{dec, narrow, sat_mul, sat_sub, trunc_div, wide_div, Decimal, RAW_MAX, RAW_MIN, SCALE};
use vstd::prelude::*;

verus! {

/// Exact sum of the raw values.
pub open spec fn total(values: Seq<Decimal>) -> int
    decreases values.len(),
{
    if values.len() == 0 {
        0
    } else {
        total(values.drop_last()) + values.last()@
    }
}

/// Mean of the amounts, rounded toward zero; zero where there are none.
pub open spec fn mean(values: Seq<Decimal>) -> int {
    if values.len() == 0 {
        0
    } else {
        trunc_div(total(values), values.len() as int)
    }
}

/// Square of the distance of `value` from `center`.
pub open spec fn squared_deviation(value: Decimal, center: int) -> Decimal {
    dec(sat_mul(sat_sub(value@, center), sat_sub(value@, center)))
}

/// The squared distances of the amounts from `center`.
pub open spec fn squared_deviations(values: Seq<Decimal>, center: int) -> Seq<Decimal> {
    values.map_values(|v: Decimal| squared_deviation(v, center))
}

/// Population variance: the mean squared distance from the mean.
pub open spec fn variance(values: Seq<Decimal>) -> int {
    mean(squared_deviations(values, mean(values)))
}

/// Whether `r` is the square root of `n` rounded down.
pub open spec fn is_sqrt_floor(n: int, r: int) -> bool {
    0 <= r && r * r <= n < (r + 1) * (r + 1)
}

/// The square root of `n` rounded down, for `n` not below zero.
pub open spec fn sqrt_floor(n: int) -> int {
    choose|r: int| is_sqrt_floor(n, r)
}

/// Raw square root of an amount, rounded down; zero for amounts below zero.
pub open spec fn sat_sqrt(a: int) -> int {
    if a <= 0 {
        0
    } else {
        sqrt_floor(a * SCALE)
    }
}

/// Squares grow with their roots.
pub proof fn lemma_square_monotone(a: int, b: int)
    requires
        0 <= a <= b,
    ensures
        a * a <= b * b,
{
    assert(a * a <= b * b) by (nonlinear_arith)
        requires
            0 <= a <= b,
    ;
}

/// A number has one rounded-down square root.
pub proof fn lemma_sqrt_floor_unique(n: int, r: int)
    requires
        is_sqrt_floor(n, r),
    ensures
        sqrt_floor(n) == r,
{
    let s = sqrt_floor(n);
    assert(is_sqrt_floor(n, s));
    if s < r {
        lemma_square_monotone(s + 1, r);
    } else if r < s {
        lemma_square_monotone(r + 1, s);
    }
}

/// The sum of `n` amounts lies between `n` times the smallest amount and
/// `n` times the largest.
pub proof fn lemma_total_bound(values: Seq<Decimal>)
    ensures
        values.len() * RAW_MIN <= total(values) <= values.len() * RAW_MAX,
    decreases values.len(),
{
    if values.len() > 0 {
        lemma_total_bound(values.drop_last());
        assert((values.len() - 1) * RAW_MAX + RAW_MAX == values.len() * RAW_MAX) by (nonlinear_arith);
        assert((values.len() - 1) * RAW_MIN + RAW_MIN == values.len() * RAW_MIN) by (nonlinear_arith);
    }
}

/// The mean of `n` amounts, rounded toward zero, is an amount.
pub proof fn lemma_mean_fits(sum: int, n: int)
    requires
        n > 0,
        n * RAW_MIN <= sum <= n * RAW_MAX,
    ensures
        RAW_MIN <= trunc_div(sum, n) <= RAW_MAX,
{
    if sum >= 0 {
        assert(0 <= sum / n <= RAW_MAX) by (nonlinear_arith)
            requires
                n > 0,
                0 <= sum <= n * RAW_MAX,
        ;
    } else {
        let m = -sum;
        assert(n * RAW_MIN == -(n * 0x8000_0000_0000_0000)) by (nonlinear_arith)
            requires
                RAW_MIN == -0x8000_0000_0000_0000,
        ;
        assert(0 <= m / n <= 0x8000_0000_0000_0000) by (nonlinear_arith)
            requires
                n > 0,
                0 <= m <= n * 0x8000_0000_0000_0000,
        ;
    }
}

/// The mean of amounts is an amount.
pub proof fn lemma_mean_is_amount(values: Seq<Decimal>)
    ensures
        RAW_MIN <= mean(values) <= RAW_MAX,
{
    if values.len() > 0 {
        lemma_total_bound(values);
        lemma_mean_fits(total(values), values.len() as int);
    }
}

/// Exact sum of the raw values.
pub fn sum_raw(values: &Vec<Decimal>) -> (res: i128)
    ensures
        res as int == total(values@),
{
    let mut acc: i128 = 0;
    let mut i: usize = 0;
    while i < values.len()
        invariant
            i <= values.len(),
            acc as int == total(values@.take(i as int)),
        decreases values.len() - i,
    {
        proof {
            lemma_total_bound(values@.take(i as int));
            assert(values@.take(i + 1).drop_last() == values@.take(i as int));
            assert(i * RAW_MAX <= 0xffff_ffff_ffff_ffff * RAW_MAX && i * RAW_MIN >= 0xffff_ffff_ffff_ffff * RAW_MIN)
                by (nonlinear_arith)
                requires
                    0 <= i <= 0xffff_ffff_ffff_ffff,
            ;
        }
        acc = acc + values[i].raw as i128;
        i = i + 1;
    }
    assert(values@.take(values.len() as int) == values@);
    acc
}

/// Mean of the amounts, rounded toward zero; zero where there are none.
pub fn mean_of(values: &Vec<Decimal>) -> (res: Decimal)
    ensures
        res@ == mean(values@),
{
    if values.len() == 0 {
        return Decimal::zero();
    }
    let sum = sum_raw(values);
    proof {
        lemma_total_bound(values@);
        lemma_mean_is_amount(values@);
        assert(values.len() * RAW_MAX <= 0xffff_ffff_ffff_ffff * RAW_MAX && values.len() * RAW_MIN
            >= 0xffff_ffff_ffff_ffff * RAW_MIN) by (nonlinear_arith)
            requires
                0 <= values.len() <= 0xffff_ffff_ffff_ffff,
        ;
    }
    Decimal { raw: narrow(wide_div(sum, values.len() as i128)) }
}

/// Population variance of the amounts: the mean squared distance from
/// their mean.
pub fn variance_of(values: &Vec<Decimal>) -> (res: Decimal)
    ensures
        res@ == variance(values@),
{
    let center = mean_of(values);
    let mut squares: Vec<Decimal> = Vec::new();
    let mut i: usize = 0;
    while i < values.len()
        invariant
            i <= values.len(),
            squares@ == squared_deviations(values@.take(i as int), center@),
        decreases values.len() - i,
    {
        let d = values[i].minus(center);
        squares.push(d.times(d));
        assert(squares@ =~= squared_deviations(values@.take(i + 1), center@));
        i = i + 1;
    }
    assert(values@.take(values.len() as int) == values@);
    mean_of(&squares)
}

/// Square root of a wide number, rounded down.
pub fn wide_sqrt(n: u128) -> (r: u64)
    ensures
        is_sqrt_floor(n as int, r as int),
        r as int == sqrt_floor(n as int),
{
    let mut lo: u128 = 0;
    let mut hi: u128 = 0x1_0000_0000_0000_0000;
    assert(hi * hi > n) by (nonlinear_arith)
        requires
            hi == 0x1_0000_0000_0000_0000,
            n <= 0xffff_ffff_ffff_ffff_ffff_ffff_ffff_ffff,
    ;
    while hi - lo > 1
        invariant
            0 <= lo < hi <= 0x1_0000_0000_0000_0000,
            lo * lo <= n < hi * hi,
        decreases hi - lo,
    {
        let mid: u128 = lo + (hi - lo) / 2;
        proof {
            lemma_square_monotone(mid as int, 0xffff_ffff_ffff_ffff);
        }
        if mid * mid <= n {
            lo = mid;
        } else {
            hi = mid;
        }
    }
    proof {
        lemma_sqrt_floor_unique(n as int, lo as int);
    }
    lo as u64
}

/// The square root of an amount is an amount.
pub proof fn lemma_sqrt_is_amount(a: int)
    requires
        RAW_MIN <= a <= RAW_MAX,
    ensures
        0 <= sat_sqrt(a) <= RAW_MAX,
{
    if a > 0 {
        let n = a * SCALE;
        assert(0 <= n < 0x8000_0000_0000_0000 * 0x8000_0000_0000_0000) by (nonlinear_arith)
            requires
                0 < a <= RAW_MAX,
                n == a * SCALE,
                SCALE == 100_000_000,
                RAW_MAX == 0x7fff_ffff_ffff_ffff,
        ;
        assert(is_sqrt_floor(n, sqrt_floor(n))) by {
            lemma_sqrt_exists(n);
        }
        let r = sqrt_floor(n);
        if r > RAW_MAX {
            lemma_square_monotone(0x8000_0000_0000_0000, r);
        }
    }
}

/// Every number not below zero has a rounded-down square root.
pub proof fn lemma_sqrt_exists(n: int)
    requires
        n >= 0,
    ensures
        is_sqrt_floor(n, sqrt_floor(n)),
    decreases n,
{
    if n == 0 {
        assert(is_sqrt_floor(0, 0));
    } else {
        lemma_sqrt_exists(n - 1);
        let r = sqrt_floor(n - 1);
        if (r + 1) * (r + 1) <= n {
            assert(n < (r + 2) * (r + 2)) by (nonlinear_arith)
                requires
                    n - 1 < (r + 1) * (r + 1),
                    r >= 0,
            ;
            assert(is_sqrt_floor(n, r + 1));
        } else {
            assert(is_sqrt_floor(n, r));
        }
    }
}

impl Decimal {
    /// Square root, rounded down; zero for amounts below zero.
    pub fn sqrt(self) -> (r: Decimal)
        ensures
            r@ == sat_sqrt(self@),
    {
        if self.raw <= 0 {
            return Decimal::zero();
        }
        let wide: u128 = (self.raw as u128) * (SCALE as u128);
        let root = wide_sqrt(wide);
        proof {
            lemma_sqrt_is_amount(self@);
        }
        Decimal { raw: narrow(root as i128) }
    }
}

} // verus!
