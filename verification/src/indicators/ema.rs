//! Exponential moving average over the most recent candles.

use crate::data_structures::history::History;
use crate::data_structures::kline::{closes, closing_prices, Kline};
use crate::data_structures::timeline::tail;
use crate::decimal::{clamp, dec, narrow, trunc_div, wide_div, Decimal};
use crate::indicators::Indicator;
use crate::text::{digits, numbered};
use vstd::prelude::*;

verus! {

/// The average after `close`, given the average before it: the previous
/// average moved toward the close by `2 / (period + 1)` of their distance.
pub open spec fn ema_next(prev: Decimal, close: Decimal, period: int) -> Decimal {
    dec(clamp(prev@ + trunc_div((close@ - prev@) * 2, period + 1)))
}

/// The running averages of `prices`, one per price: the first price seeds
/// the average and each later price moves it.
pub open spec fn ema_series(prices: Seq<Decimal>, period: int) -> Seq<Decimal>
    decreases prices.len(),
{
    if prices.len() == 0 {
        Seq::empty()
    } else if prices.len() == 1 {
        seq![prices[0]]
    } else {
        let before = ema_series(prices.drop_last(), period);
        before.push(ema_next(before.last(), prices.last(), period))
    }
}

/// The averages that a history with the given closing prices yields: the
/// series over its last `period` prices.
pub open spec fn ema_values(prices: Seq<Decimal>, period: int) -> Seq<Decimal> {
    ema_series(tail(prices, period), period)
}

/// The series has one average per price.
pub proof fn lemma_ema_len(prices: Seq<Decimal>, period: int)
    ensures
        ema_series(prices, period).len() == prices.len(),
    decreases prices.len(),
{
    if prices.len() > 1 {
        lemma_ema_len(prices.drop_last(), period);
    }
}

/// The averages of a history are as many as the candles that are read: the
/// period, or all where the history holds fewer.
pub proof fn lemma_ema_series_len(prices: Seq<Decimal>, period: int)
    requires
        period >= 0,
    ensures
        ema_values(prices, period).len() == if period >= prices.len() {
            prices.len() as int
        } else {
            period
        },
{
    lemma_ema_len(tail(prices, period), period);
}

/// With a period of at least one, the average after a price lies between
/// the average before it and the price.
pub proof fn lemma_ema_between(prev: Decimal, close: Decimal, period: int)
    requires
        period >= 1,
    ensures
        prev@ <= close@ ==> prev@ <= ema_next(prev, close, period)@ <= close@,
        close@ <= prev@ ==> close@ <= ema_next(prev, close, period)@ <= prev@,
{
    let delta = close@ - prev@;
    let d = period + 1;
    let m = crate::decimal::magnitude(delta * 2);
    assert(0 <= m / d <= crate::decimal::magnitude(delta)) by (nonlinear_arith)
        requires
            d >= 2,
            m == 2 * crate::decimal::magnitude(delta),
            crate::decimal::magnitude(delta) >= 0,
    ;
}

/// Whether each price is above the one before.
pub open spec fn rising(prices: Seq<Decimal>) -> bool {
    forall|i: int, j: int| 0 <= i < j < prices.len() ==> prices[i]@ < prices[j]@
}

/// Whether each price is below the one before.
pub open spec fn falling(prices: Seq<Decimal>) -> bool {
    forall|i: int, j: int| 0 <= i < j < prices.len() ==> prices[i]@ > prices[j]@
}

/// With a period of one the average is the price; with a longer period it
/// moves toward the price without reaching it.
pub proof fn lemma_ema_lags(prev: Decimal, close: Decimal, period: int)
    requires
        period >= 1,
    ensures
        period == 1 ==> ema_next(prev, close, period) == close,
        period >= 2 && prev@ < close@ ==> prev@ <= ema_next(prev, close, period)@ < close@,
        period >= 2 && prev@ > close@ ==> prev@ >= ema_next(prev, close, period)@ > close@,
{
    let delta = close@ - prev@;
    let d = period + 1;
    let m = crate::decimal::magnitude(delta * 2);
    if period == 1 {
        assert(m / 2 == crate::decimal::magnitude(delta));
    } else if delta != 0 {
        assert(0 <= m / d < crate::decimal::magnitude(delta)) by (nonlinear_arith)
            requires
                d >= 3,
                m == 2 * crate::decimal::magnitude(delta),
                crate::decimal::magnitude(delta) >= 1,
        ;
    }
}

/// Over rising prices the last average lies from the first price to the
/// last: at the last price with a period of one, and below it with a longer
/// period and at least two prices.
pub proof fn lemma_ema_of_rising(prices: Seq<Decimal>, period: int)
    requires
        period >= 1,
        prices.len() >= 1,
        rising(prices),
    ensures
        ema_series(prices, period).len() == prices.len(),
        prices[0]@ <= ema_series(prices, period).last()@ <= prices.last()@,
        period == 1 ==> ema_series(prices, period).last() == prices.last(),
        period >= 2 && prices.len() >= 2 ==> ema_series(prices, period).last()@ < prices.last()@,
    decreases prices.len(),
{
    lemma_ema_len(prices, period);
    if prices.len() > 1 {
        let shorter = prices.drop_last();
        lemma_ema_of_rising(shorter, period);
        let before = ema_series(shorter, period);
        assert(shorter.last() == prices[prices.len() - 2]);
        assert(prices[prices.len() - 2]@ < prices[prices.len() - 1]@);
        assert(shorter[0] == prices[0]);
        if prices.len() > 2 {
            assert(prices[0]@ < prices[prices.len() - 2]@);
        }
        lemma_ema_lags(before.last(), prices.last(), period);
        lemma_ema_between(before.last(), prices.last(), period);
    }
}

/// Over falling prices the last average lies from the last price to the
/// first: at the last price with a period of one, and above it with a longer
/// period and at least two prices.
pub proof fn lemma_ema_of_falling(prices: Seq<Decimal>, period: int)
    requires
        period >= 1,
        prices.len() >= 1,
        falling(prices),
    ensures
        ema_series(prices, period).len() == prices.len(),
        prices[0]@ >= ema_series(prices, period).last()@ >= prices.last()@,
        period == 1 ==> ema_series(prices, period).last() == prices.last(),
        period >= 2 && prices.len() >= 2 ==> ema_series(prices, period).last()@ > prices.last()@,
    decreases prices.len(),
{
    lemma_ema_len(prices, period);
    if prices.len() > 1 {
        let shorter = prices.drop_last();
        lemma_ema_of_falling(shorter, period);
        let before = ema_series(shorter, period);
        assert(shorter.last() == prices[prices.len() - 2]);
        assert(prices[prices.len() - 2]@ > prices[prices.len() - 1]@);
        assert(shorter[0] == prices[0]);
        if prices.len() > 2 {
            assert(prices[0]@ > prices[prices.len() - 2]@);
        }
        lemma_ema_lags(before.last(), prices.last(), period);
        lemma_ema_between(before.last(), prices.last(), period);
    }
}

/// The last prices of rising prices rise, and those of falling prices fall.
pub proof fn lemma_tail_keeps_trend(prices: Seq<Decimal>, count: int)
    ensures
        rising(prices) ==> rising(tail(prices, count)),
        falling(prices) ==> falling(tail(prices, count)),
{
    let recent = tail(prices, count);
    let skipped = prices.len() - recent.len();
    if rising(prices) {
        assert forall|i: int, j: int| 0 <= i < j < recent.len() implies recent[i]@ < recent[j]@ by {
            assert(recent[i] == prices[skipped + i]);
            assert(recent[j] == prices[skipped + j]);
        }
    }
    if falling(prices) {
        assert forall|i: int, j: int| 0 <= i < j < recent.len() implies recent[i]@ > recent[j]@ by {
            assert(recent[i] == prices[skipped + i]);
            assert(recent[j] == prices[skipped + j]);
        }
    }
}

/// The average after one more price.
pub fn ema_step(prev: Decimal, close: Decimal, period: usize) -> (r: Decimal)
    ensures
        r == ema_next(prev, close, period as int),
{
    let delta: i128 = close.raw as i128 - prev.raw as i128;
    let q: i128 = wide_div(delta * 2, period as i128 + 1);
    Decimal { raw: narrow(prev.raw as i128 + q) }
}

/// The running averages of `prices`.
pub fn ema_of_prices(prices: &Vec<Decimal>, period: usize) -> (res: Vec<Decimal>)
    ensures
        res@ == ema_series(prices@, period as int),
{
    let mut out: Vec<Decimal> = Vec::new();
    let mut i: usize = 0;
    while i < prices.len()
        invariant
            i <= prices.len(),
            out@ == ema_series(prices@.take(i as int), period as int),
            out@.len() == i,
        decreases prices.len() - i,
    {
        let close = prices[i];
        let next = if i == 0 {
            close
        } else {
            ema_step(out[i - 1], close, period)
        };
        proof {
            assert(prices@.take(i + 1).drop_last() == prices@.take(i as int));
        }
        out.push(next);
        i = i + 1;
    }
    proof {
        assert(prices@.take(prices.len() as int) == prices@);
    }
    out
}

/// The closing prices of the last candles are the last closing prices.
pub proof fn lemma_closes_of_tail(candles: Seq<Kline>, count: int)
    ensures
        closes(tail(candles, count)) == tail(closes(candles), count),
{
    assert(closes(tail(candles, count)) =~= tail(closes(candles), count));
}

/// Parameters of the exponential moving average.
#[derive(PartialEq, Eq, Hash, Clone, Copy, Debug, Structural)]
pub struct EMAParams {
    /// Number of candles the average looks back over.
    pub period: usize,
}

impl EMAParams {
    /// The name of the average with these parameters.
    pub open spec fn name_spec(&self) -> Seq<char> {
        "ema_"@ + digits(self.period as nat)
    }

    /// The name of the average: `ema_` and the period.
    pub fn name(&self) -> (res: String)
        ensures
            res@ == self.name_spec(),
    {
        numbered("ema_", self.period)
    }
}

/// The exponential moving average calculator.
#[derive(Debug, Clone, Copy, PartialEq, Eq)]
pub struct EMA {
    pub params: EMAParams,
}

impl EMA {
    /// The calculator with the given parameters.
    pub fn new(params: EMAParams) -> (res: Self)
        ensures
            res.params == params,
    {
        EMA { params }
    }
}

impl Indicator for EMA {
    open spec fn name_spec(&self) -> Seq<char> {
        self.params.name_spec()
    }

    open spec fn values(&self, candles: Seq<Kline>) -> Seq<Decimal> {
        ema_values(closes(candles), self.params.period as int)
    }

    fn name(&self) -> (res: String) {
        self.params.name()
    }

    /// The running averages over the last `period` candles; the first of
    /// them seeds the average anew on every call.
    fn calculate(&self, history: &History) -> (res: Vec<Decimal>) {
        let klines = history.last(self.params.period);
        let prices = closing_prices(&klines);
        proof {
            lemma_closes_of_tail(history.candles(), self.params.period as int);
        }
        ema_of_prices(&prices, self.params.period)
    }
}

} // verus!
