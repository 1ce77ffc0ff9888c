//! Relative strength index with Wilder smoothing.

use crate::decimal::{clamp, dec, narrow, sat_add, sat_div, sat_sub, trunc_div, wide_div, Decimal, RAW_MAX, SCALE};
use crate::data_structures::history::History;
use crate::data_structures::kline::{closes, closing_prices, Kline};
use crate::data_structures::timeline::tail;
use crate::indicators::ema::{falling, lemma_closes_of_tail, rising};
use crate::indicators::Indicator;
use crate::text::{digits, numbered};
use vstd::prelude::*;

verus! {

/// Raw change from price `i` to price `i + 1`.
pub open spec fn change(prices: Seq<Decimal>, i: int) -> int {
    sat_sub(prices[i + 1]@, prices[i]@)
}

/// The part of a change that is a rise.
pub open spec fn gain(c: int) -> int {
    if c >= 0 {
        c
    } else {
        0
    }
}

/// The part of a change that is a fall, as a positive amount.
pub open spec fn loss(c: int) -> int {
    if c >= 0 {
        0
    } else {
        clamp(-c)
    }
}

/// Sum of the gains of the first `n` changes.
pub open spec fn gain_sum(prices: Seq<Decimal>, n: int) -> int
    decreases n,
{
    if n <= 0 {
        0
    } else {
        gain_sum(prices, n - 1) + gain(change(prices, n - 1))
    }
}

/// Sum of the losses of the first `n` changes.
pub open spec fn loss_sum(prices: Seq<Decimal>, n: int) -> int
    decreases n,
{
    if n <= 0 {
        0
    } else {
        loss_sum(prices, n - 1) + loss(change(prices, n - 1))
    }
}

/// Wilder smoothing: the average over `period` steps after one more value.
pub open spec fn smooth(avg: int, value: int, period: int) -> int {
    trunc_div(avg * (period - 1) + value, period)
}

/// Average gain at output step `step`: the mean of the first `period` gains
/// at step zero, smoothed by each later gain.
pub open spec fn avg_gain(prices: Seq<Decimal>, period: int, step: int) -> int
    decreases step,
{
    if step <= 0 {
        trunc_div(gain_sum(prices, period), period)
    } else {
        smooth(avg_gain(prices, period, step - 1), gain(change(prices, period + step - 1)), period)
    }
}

/// Average loss at output step `step`.
pub open spec fn avg_loss(prices: Seq<Decimal>, period: int, step: int) -> int
    decreases step,
{
    if step <= 0 {
        trunc_div(loss_sum(prices, period), period)
    } else {
        smooth(avg_loss(prices, period, step - 1), loss(change(prices, period + step - 1)), period)
    }
}

/// Relative strength of an average gain over an average loss; 100 where
/// there is no loss.
pub open spec fn relative_strength(avg_gain: int, avg_loss: int) -> int {
    if avg_loss == 0 {
        100 * SCALE
    } else {
        sat_div(avg_gain, avg_loss)
    }
}

/// The index for an average gain and an average loss:
/// `100 - 100 / (1 + rs)`.
pub open spec fn rsi_from(avg_gain: int, avg_loss: int) -> Decimal {
    dec(sat_sub(100 * SCALE, sat_div(100 * SCALE, sat_add(SCALE as int, relative_strength(avg_gain, avg_loss)))))
}

/// The index at output step `step`.
pub open spec fn rsi_at(prices: Seq<Decimal>, period: int, step: int) -> Decimal {
    rsi_from(avg_gain(prices, period, step), avg_loss(prices, period, step))
}

/// The index for every step from the seed point onward: nothing where the
/// period is zero or the prices give fewer than `period` changes, else one
/// value for the first `period` changes and one more for each later change.
pub open spec fn rsi_series(prices: Seq<Decimal>, period: int) -> Seq<Decimal> {
    if period <= 0 || prices.len() <= period {
        Seq::empty()
    } else {
        Seq::new((prices.len() - period) as nat, |step: int| rsi_at(prices, period, step))
    }
}

/// The values that a history with the given closing prices yields: the
/// series over its last `period + 1` prices.
pub open spec fn rsi_values(prices: Seq<Decimal>, period: int) -> Seq<Decimal> {
    rsi_series(tail(prices, period + 1), period)
}

/// A mean of `n` amounts between zero and `m` lies between zero and `m`.
pub proof fn lemma_mean_bound(sum: int, n: int, m: int)
    requires
        n > 0,
        m >= 0,
        0 <= sum <= n * m,
    ensures
        0 <= trunc_div(sum, n) <= m,
{
    assert(0 <= sum / n <= m) by (nonlinear_arith)
        requires
            n > 0,
            m >= 0,
            0 <= sum <= n * m,
    ;
}

/// Smoothing keeps an average between zero and `m`.
pub proof fn lemma_smooth_bound(avg: int, value: int, period: int, m: int)
    requires
        period >= 1,
        0 <= avg <= m,
        0 <= value <= m,
    ensures
        0 <= avg * (period - 1) + value <= period * m,
        0 <= smooth(avg, value, period) <= m,
{
    assert(0 <= avg * (period - 1) + value <= period * m) by (nonlinear_arith)
        requires
            period >= 1,
            0 <= avg <= m,
            0 <= value <= m,
    ;
    lemma_mean_bound(avg * (period - 1) + value, period, m);
}

/// Sums of gains and losses stay within `n` times the largest amount.
pub proof fn lemma_sums_bound(prices: Seq<Decimal>, n: int)
    requires
        n >= 0,
    ensures
        0 <= gain_sum(prices, n) <= n * RAW_MAX,
        0 <= loss_sum(prices, n) <= n * RAW_MAX,
    decreases n,
{
    if n > 0 {
        lemma_sums_bound(prices, n - 1);
        assert((n - 1) * RAW_MAX + RAW_MAX == n * RAW_MAX) by (nonlinear_arith);
    }
}

/// Every average gain and loss is an amount between zero and the largest.
pub proof fn lemma_avg_bound(prices: Seq<Decimal>, period: int, step: int)
    requires
        period >= 1,
    ensures
        0 <= avg_gain(prices, period, step) <= RAW_MAX,
        0 <= avg_loss(prices, period, step) <= RAW_MAX,
    decreases step,
{
    if step <= 0 {
        lemma_sums_bound(prices, period);
        lemma_mean_bound(gain_sum(prices, period), period, RAW_MAX as int);
        lemma_mean_bound(loss_sum(prices, period), period, RAW_MAX as int);
    } else {
        lemma_avg_bound(prices, period, step - 1);
        lemma_smooth_bound(
            avg_gain(prices, period, step - 1),
            gain(change(prices, period + step - 1)),
            period,
            RAW_MAX as int,
        );
        lemma_smooth_bound(
            avg_loss(prices, period, step - 1),
            loss(change(prices, period + step - 1)),
            period,
            RAW_MAX as int,
        );
    }
}

/// The index for an average gain and an average loss that are amounts not
/// below zero lies from zero to one hundred.
pub proof fn lemma_rsi_in_range(avg_gain: int, avg_loss: int)
    requires
        0 <= avg_gain <= RAW_MAX,
        0 <= avg_loss <= RAW_MAX,
    ensures
        0 <= rsi_from(avg_gain, avg_loss)@ <= 100 * SCALE,
{
    let rs = relative_strength(avg_gain, avg_loss);
    if avg_loss != 0 {
        let n = avg_gain * SCALE;
        assert(n >= 0 && n / avg_loss >= 0) by (nonlinear_arith)
            requires
                avg_gain >= 0,
                avg_loss > 0,
                n == avg_gain * SCALE,
                SCALE == 100_000_000,
        ;
    }
    assert(rs >= 0);
    let one_plus = sat_add(SCALE as int, rs);
    assert(SCALE <= one_plus <= RAW_MAX);
    let whole = 100 * SCALE * SCALE;
    assert(0 <= whole / one_plus <= 100 * SCALE) by (nonlinear_arith)
        requires
            one_plus >= SCALE,
            whole == 100 * SCALE * SCALE,
            SCALE == 100_000_000,
    ;
    assert((100 * SCALE) * (SCALE as int) == whole) by (nonlinear_arith)
        requires
            whole == 100 * SCALE * SCALE,
    ;
}

/// Every value of the index lies from zero to one hundred.
pub proof fn lemma_rsi_series_in_range(prices: Seq<Decimal>, period: int)
    ensures
        forall|step: int|
            0 <= step < rsi_series(prices, period).len() ==> 0 <= (#[trigger] rsi_series(prices, period)[step])@
                <= 100 * SCALE,
{
    assert forall|step: int| 0 <= step < rsi_series(prices, period).len() implies 0 <= (#[trigger] rsi_series(
        prices,
        period,
    )[step])@ <= 100 * SCALE by {
        lemma_avg_bound(prices, period, step);
        lemma_rsi_in_range(avg_gain(prices, period, step), avg_loss(prices, period, step));
    }
}

/// The value of the index where there is no loss: the relative strength
/// is taken as 100.
pub const RSI_WITHOUT_LOSS: i64 = 9_900_990_100;

/// Over rising prices there is no loss, and over falling prices no gain but
/// a loss at every step.
pub proof fn lemma_sums_of_trend(prices: Seq<Decimal>, n: int)
    requires
        0 <= n < prices.len(),
    ensures
        rising(prices) ==> loss_sum(prices, n) == 0,
        falling(prices) ==> gain_sum(prices, n) == 0 && loss_sum(prices, n) >= n,
    decreases n,
{
    if n > 0 {
        lemma_sums_of_trend(prices, n - 1);
        if rising(prices) {
            assert(prices[n - 1]@ < prices[n]@);
        }
        if falling(prices) {
            assert(prices[n - 1]@ > prices[n]@);
        }
    }
}

/// Over rising prices the average loss is zero at every step, and over
/// falling prices the average gain is zero and the average loss is not.
pub proof fn lemma_avg_of_trend(prices: Seq<Decimal>, period: int, step: int)
    requires
        period >= 1,
        0 <= step,
        period + step < prices.len(),
    ensures
        rising(prices) ==> avg_loss(prices, period, step) == 0,
        falling(prices) ==> avg_gain(prices, period, step) == 0 && avg_loss(prices, period, step) >= 1,
    decreases step,
{
    if step == 0 {
        lemma_sums_of_trend(prices, period);
        if falling(prices) {
            let sum = loss_sum(prices, period);
            assert(sum / period >= 1) by (nonlinear_arith)
                requires
                    sum >= period,
                    period >= 1,
            ;
        }
    } else {
        lemma_avg_of_trend(prices, period, step - 1);
        let at = period + step - 1;
        if rising(prices) {
            assert(prices[at]@ < prices[at + 1]@);
            assert(0 * (period - 1) == 0);
        }
        if falling(prices) {
            assert(prices[at]@ > prices[at + 1]@);
            let before = avg_loss(prices, period, step - 1);
            let value = loss(change(prices, at));
            lemma_avg_bound(prices, period, step - 1);
            let sum = before * (period - 1) + value;
            assert(sum >= period && sum / period >= 1) by (nonlinear_arith)
                requires
                    before >= 1,
                    value >= 1,
                    period >= 1,
                    sum == before * (period - 1) + value,
            ;
        }
    }
}

/// Over rising prices every value of the index is the value without loss,
/// just above 99, and over falling prices every value is zero.
pub proof fn lemma_rsi_of_trend(prices: Seq<Decimal>, period: int)
    requires
        period >= 1,
    ensures
        rising(prices) ==> forall|step: int|
            0 <= step < rsi_series(prices, period).len() ==> (#[trigger] rsi_series(prices, period)[step])@
                == RSI_WITHOUT_LOSS,
        falling(prices) ==> forall|step: int|
            0 <= step < rsi_series(prices, period).len() ==> (#[trigger] rsi_series(prices, period)[step])@ == 0,
{
    assert forall|step: int| 0 <= step < rsi_series(prices, period).len() implies (rising(prices) ==> (
    #[trigger] rsi_series(prices, period)[step])@ == RSI_WITHOUT_LOSS) && (falling(prices) ==> rsi_series(
        prices,
        period,
    )[step]@ == 0) by {
        lemma_avg_of_trend(prices, period, step);
        lemma_avg_bound(prices, period, step);
        if rising(prices) {
            lemma_rsi_without_loss(avg_gain(prices, period, step));
        }
        if falling(prices) {
            lemma_rsi_without_gain(avg_loss(prices, period, step));
        }
    }
}

/// Without loss the index is just above 99, whatever the gain.
pub proof fn lemma_rsi_without_loss(avg_gain: int)
    ensures
        rsi_from(avg_gain, 0)@ == RSI_WITHOUT_LOSS,
{
    let whole: int = 100 * SCALE * SCALE;
    let one_plus: int = 101 * SCALE;
    assert(whole / one_plus == 99_009_900) by (nonlinear_arith)
        requires
            whole == 1_000_000_000_000_000_000,
            one_plus == 10_100_000_000,
    ;
    assert((100 * SCALE) * (SCALE as int) == whole) by (nonlinear_arith)
        requires
            whole == 100 * SCALE * SCALE,
    ;
}

/// Without gain, and with a loss, the index is zero.
pub proof fn lemma_rsi_without_gain(avg_loss: int)
    requires
        avg_loss >= 1,
    ensures
        rsi_from(0, avg_loss)@ == 0,
{
    assert(0 * (SCALE as int) == 0);
    assert(0int / avg_loss == 0) by (nonlinear_arith)
        requires
            avg_loss >= 1,
    ;
    let whole: int = 100 * SCALE * SCALE;
    assert(whole / (SCALE as int) == 100 * SCALE) by (nonlinear_arith)
        requires
            whole == 1_000_000_000_000_000_000,
            SCALE == 100_000_000,
    ;
    assert((100 * SCALE) * (SCALE as int) == whole) by (nonlinear_arith)
        requires
            whole == 100 * SCALE * SCALE,
    ;
}

/// The rise and the fall from price `i` to price `i + 1`.
pub fn gain_and_loss(prices: &Vec<Decimal>, i: usize) -> (r: (i64, i64))
    requires
        i + 1 < prices.len(),
    ensures
        r.0 as int == gain(change(prices@, i as int)),
        r.1 as int == loss(change(prices@, i as int)),
{
    let c: i64 = prices[i + 1].minus(prices[i]).raw;
    if c >= 0 {
        (c, 0)
    } else {
        (0, narrow(-(c as i128)))
    }
}

/// The index for an average gain and an average loss.
pub fn rsi_value(avg_gain: i64, avg_loss: i64) -> (r: Decimal)
    ensures
        r == rsi_from(avg_gain as int, avg_loss as int),
{
    let hundred = Decimal::from_int(100);
    let rs = if avg_loss == 0 {
        hundred
    } else {
        Decimal::from_raw(avg_gain).over(Decimal::from_raw(avg_loss))
    };
    hundred.minus(hundred.over(Decimal::from_int(1).plus(rs)))
}

/// The index for every step from the seed point onward.
pub fn rsi_of_prices(prices: &Vec<Decimal>, period: usize) -> (res: Vec<Decimal>)
    ensures
        res@ == rsi_series(prices@, period as int),
        forall|step: int| 0 <= step < res@.len() ==> 0 <= (#[trigger] res@[step])@ <= 100 * SCALE,
{
    proof {
        lemma_rsi_series_in_range(prices@, period as int);
    }
    let mut out: Vec<Decimal> = Vec::new();
    if period == 0 || prices.len() <= period {
        return out;
    }
    let p: i128 = period as i128;
    let mut gains: i128 = 0;
    let mut losses: i128 = 0;
    let mut i: usize = 0;
    while i < period
        invariant
            i <= period < prices.len(),
            gains as int == gain_sum(prices@, i as int),
            losses as int == loss_sum(prices@, i as int),
        decreases period - i,
    {
        proof {
            lemma_sums_bound(prices@, i as int);
            lemma_sums_bound(prices@, i + 1);
            assert(i * RAW_MAX <= 0xffff_ffff_ffff_ffff * RAW_MAX) by (nonlinear_arith)
                requires
                    0 <= i <= 0xffff_ffff_ffff_ffff,
            ;
        }
        let (g, l) = gain_and_loss(prices, i);
        gains = gains + g as i128;
        losses = losses + l as i128;
        i = i + 1;
    }
    proof {
        lemma_sums_bound(prices@, period as int);
        lemma_avg_bound(prices@, period as int, 0);
    }
    let mut avg_g: i64 = wide_div(gains, p) as i64;
    let mut avg_l: i64 = wide_div(losses, p) as i64;
    out.push(rsi_value(avg_g, avg_l));
    let ghost total = prices.len() - period;
    let mut step: usize = 1;
    while step < prices.len() - period
        invariant
            1 <= period < prices.len(),
            p == period as i128,
            total == prices.len() - period,
            1 <= step <= total,
            avg_g as int == avg_gain(prices@, period as int, step - 1),
            avg_l as int == avg_loss(prices@, period as int, step - 1),
            out@.len() == step,
            forall|j: int| 0 <= j < step ==> out@[j] == rsi_at(prices@, period as int, j),
        decreases total - step,
    {
        let (g, l) = gain_and_loss(prices, period + step - 1);
        proof {
            lemma_avg_bound(prices@, period as int, step - 1);
            lemma_avg_bound(prices@, period as int, step as int);
            lemma_smooth_bound(avg_g as int, g as int, period as int, RAW_MAX as int);
            lemma_smooth_bound(avg_l as int, l as int, period as int, RAW_MAX as int);
            assert(period * RAW_MAX <= 0xffff_ffff_ffff_ffff * RAW_MAX) by (nonlinear_arith)
                requires
                    0 <= period <= 0xffff_ffff_ffff_ffff,
            ;
            assert(0 <= avg_g * (period - 1) <= avg_g * (period - 1) + g) by (nonlinear_arith)
                requires
                    avg_g >= 0,
                    period >= 1,
                    g >= 0,
            ;
            assert(0 <= avg_l * (period - 1) <= avg_l * (period - 1) + l) by (nonlinear_arith)
                requires
                    avg_l >= 0,
                    period >= 1,
                    l >= 0,
            ;
        }
        avg_g = wide_div((avg_g as i128) * (p - 1) + g as i128, p) as i64;
        avg_l = wide_div((avg_l as i128) * (p - 1) + l as i128, p) as i64;
        out.push(rsi_value(avg_g, avg_l));
        step = step + 1;
    }
    assert(out@ =~= rsi_series(prices@, period as int));
    out
}

/// Parameters of the relative strength index.
#[derive(PartialEq, Eq, Hash, Clone, Copy, Debug, Structural)]
pub struct RSIParams {
    /// Number of price changes the index averages over.
    pub period: usize,
}

impl RSIParams {
    /// The name of the index with these parameters.
    pub open spec fn name_spec(&self) -> Seq<char> {
        "rsi_"@ + digits(self.period as nat)
    }

    /// The name of the index: `rsi_` and the period.
    pub fn name(&self) -> (res: String)
        ensures
            res@ == self.name_spec(),
    {
        numbered("rsi_", self.period)
    }
}

/// The relative strength index calculator.
#[derive(Debug, PartialEq, Eq)]
pub struct RSI {
    pub name: String,
    pub period: usize,
}

impl RSI {
    /// The calculator with the given name and period.
    pub fn new(name: String, period: usize) -> (res: Self)
        ensures
            res.name == name,
            res.period == period,
    {
        RSI { name, period }
    }
}

impl Indicator for RSI {
    open spec fn name_spec(&self) -> Seq<char> {
        self.name@
    }

    open spec fn values(&self, candles: Seq<Kline>) -> Seq<Decimal> {
        rsi_values(closes(candles), self.period as int)
    }

    fn name(&self) -> (res: String) {
        self.name.clone()
    }

    /// The index over the last `period + 1` candles: one value where the
    /// history holds that many, none where it holds fewer.
    fn calculate(&self, history: &History) -> (res: Vec<Decimal>) {
        let stored = history.len();
        let count: usize = if self.period < stored {
            self.period + 1
        } else {
            stored
        };
        let klines = history.last(count);
        let prices = closing_prices(&klines);
        proof {
            lemma_closes_of_tail(history.candles(), count as int);
            assert(tail(closes(history.candles()), count as int) == tail(
                closes(history.candles()),
                self.period + 1,
            ));
        }
        rsi_of_prices(&prices, self.period)
    }
}

} // verus!
