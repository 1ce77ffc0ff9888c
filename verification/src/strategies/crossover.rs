//! Signals from the price crossing an indicator.

use crate::data_structures::history::{coherent, inserted_all, lemma_insert_run, rows, History, HistoryView};
use crate::data_structures::kline::{candle_times, closes, closing_prices, Kline};
use crate::data_structures::timeline::ascending;
use crate::indicators::ema::{
    ema_values, falling, lemma_ema_of_falling, lemma_ema_of_rising, lemma_ema_series_len, lemma_tail_keeps_trend, rising,
    EMAParams,
};
use crate::indicators::indicator_values;
use crate::data_structures::signal::{Signal, SignalType};
use crate::decimal::Decimal;
use crate::data_structures::timeline::tail;
use crate::indicators::IndicatorIdentifier;
use crate::strategies::{Strategy, LOOK_BACK};
use vstd::prelude::*;

verus! {

/// The direction for two consecutive prices and indicator readings: buy
/// where the price rises above the indicator from at or below it, sell where
/// it falls below the indicator from at or above it, hold otherwise.
pub open spec fn crossover_direction(
    previous_price: Decimal,
    previous_indicator: Decimal,
    current_price: Decimal,
    current_indicator: Decimal,
) -> SignalType {
    if previous_price@ <= previous_indicator@ && current_price@ > current_indicator@ {
        SignalType::Buy
    } else if previous_price@ >= previous_indicator@ && current_price@ < current_indicator@ {
        SignalType::Sell
    } else {
        SignalType::Hold
    }
}

/// The direction for a series of prices and a series of reading vectors, of
/// which the last two of each count, and of a reading vector its last value.
/// There is none with fewer than two prices or readings, or where one of the
/// two reading vectors is empty.
pub open spec fn crossover_of(prices: Seq<Decimal>, readings: Seq<Seq<Decimal>>) -> Option<SignalType> {
    if prices.len() < 2 || readings.len() < 2 {
        None
    } else if readings[readings.len() - 1].len() == 0 || readings[readings.len() - 2].len() == 0 {
        None
    } else {
        Some(
            crossover_direction(
                prices[prices.len() - 2],
                readings[readings.len() - 2].last(),
                prices[prices.len() - 1],
                readings[readings.len() - 1].last(),
            ),
        )
    }
}

/// While prices only rise or only fall, the price does not cross its
/// moving average: with at least three prices, the direction for the last
/// two prices and the averages recorded with them is hold.
pub proof fn lemma_trend_holds(prices: Seq<Decimal>, period: int)
    requires
        period >= 1,
        prices.len() >= 3,
        rising(prices) || falling(prices),
    ensures
        ema_values(prices.drop_last(), period).len() > 0,
        ema_values(prices, period).len() > 0,
        crossover_direction(
            prices[prices.len() - 2],
            ema_values(prices.drop_last(), period).last(),
            prices[prices.len() - 1],
            ema_values(prices, period).last(),
        ) == SignalType::Hold,
{
    let earlier = prices.drop_last();
    let window = tail(prices, period);
    let window_before = tail(earlier, period);
    lemma_ema_series_len(prices, period);
    lemma_ema_series_len(earlier, period);
    lemma_tail_keeps_trend(prices, period);
    assert(window.last() == prices[prices.len() - 1]);
    assert(window_before.last() == prices[prices.len() - 2]);
    if rising(prices) {
        assert(rising(earlier)) by {
            assert forall|i: int, j: int| 0 <= i < j < earlier.len() implies earlier[i]@ < earlier[j]@ by {
                assert(earlier[i] == prices[i] && earlier[j] == prices[j]);
            }
        }
        lemma_tail_keeps_trend(earlier, period);
        lemma_ema_of_rising(window, period);
        lemma_ema_of_rising(window_before, period);
    } else {
        assert(falling(earlier)) by {
            assert forall|i: int, j: int| 0 <= i < j < earlier.len() implies earlier[i]@ > earlier[j]@ by {
                assert(earlier[i] == prices[i] && earlier[j] == prices[j]);
            }
        }
        lemma_tail_keeps_trend(earlier, period);
        lemma_ema_of_falling(window, period);
        lemma_ema_of_falling(window_before, period);
    }
}

/// After candles whose closing prices only rise or only fall went, in order
/// of time, into a history without candles that records the moving average
/// of a crossover strategy, the strategy gives exactly one signal, and that
/// is to hold.
pub proof fn lemma_trend_gives_hold(
    strategy: PriceCrossOverStrategy,
    start: HistoryView,
    klines: Seq<Kline>,
    period: usize,
)
    requires
        strategy.indicator() == IndicatorIdentifier::EMA(EMAParams { period }),
        period >= 1,
        coherent(start),
        start.candles.len() == 0,
        start.requested.contains(strategy.indicator()),
        ascending(candle_times(klines)),
        klines.len() >= 3,
        rising(closes(klines)) || falling(closes(klines)),
    ensures
        strategy.signals(inserted_all(start, klines)) == seq![
            Signal::of_kline(SignalType::Hold, strategy.name_text(), klines.last()),
        ],
{
    let id = strategy.indicator();
    let end = inserted_all(start, klines);
    let n = klines.len() as int;
    lemma_insert_run(start, klines);
    assert(start.requested.contains(id));
    let values = end.values[id];
    assert(values.len() == n);
    assert(values[n - 1] == indicator_values(id, klines.take(n)));
    assert(values[n - 2] == indicator_values(id, klines.take(n - 1)));
    assert(klines.take(n) =~= klines);
    assert(klines.take(n - 1) =~= klines.drop_last());
    assert(closes(klines.drop_last()) =~= closes(klines).drop_last());
    lemma_trend_holds(closes(klines), period as int);
    let recent = tail(end.candles, LOOK_BACK as int);
    assert(recent.len() == 2);
    assert(recent[0] == klines[n - 2] && recent[1] == klines[n - 1]);
    assert(closes(recent)[0] == closes(klines)[n - 2] && closes(recent)[1] == closes(klines)[n - 1]);
    let readings = tail(values, LOOK_BACK as int);
    assert(readings.len() == 2);
    assert(readings[0] == values[n - 2] && readings[1] == values[n - 1]);
}

/// Compares the closing price with one indicator.
#[derive(Debug, PartialEq, Eq)]
pub struct PriceCrossOverStrategy {
    name: String,
    indicator: IndicatorIdentifier,
}

impl PriceCrossOverStrategy {
    /// The indicator the price is compared with.
    pub closed spec fn indicator(&self) -> IndicatorIdentifier {
        self.indicator
    }

    /// The strategy's name, as text.
    pub closed spec fn name_text(&self) -> String {
        self.name
    }

    /// A strategy called `name` that compares the price with `indicator`.
    pub fn new(name: String, indicator: IndicatorIdentifier) -> (res: Self)
        ensures
            res.name_text() == name,
            res.indicator() == indicator,
    {
        PriceCrossOverStrategy { name, indicator }
    }

    /// The direction for the last two prices and readings.
    pub fn detect_crossover(&self, price_series: &[Decimal], indicator_series: &[Vec<Decimal>]) -> (res: Option<
        SignalType,
    >)
        ensures
            res == crossover_of(price_series@, rows(indicator_series@)),
    {
        if price_series.len() < 2 || indicator_series.len() < 2 {
            return None;
        }
        let current_price = price_series[price_series.len() - 1];
        let previous_price = price_series[price_series.len() - 2];
        let current_readings = &indicator_series[indicator_series.len() - 1];
        let previous_readings = &indicator_series[indicator_series.len() - 2];
        if current_readings.len() == 0 || previous_readings.len() == 0 {
            return None;
        }
        let current_indicator = current_readings[current_readings.len() - 1];
        let previous_indicator = previous_readings[previous_readings.len() - 1];
        if previous_price.le(previous_indicator) && current_price.gt(current_indicator) {
            Some(SignalType::Buy)
        } else if previous_price.ge(previous_indicator) && current_price.lt(current_indicator) {
            Some(SignalType::Sell)
        } else {
            Some(SignalType::Hold)
        }
    }
}

impl Strategy for PriceCrossOverStrategy {
    open spec fn name_spec(&self) -> Seq<char> {
        self.name_text()@
    }

    open spec fn indicators(&self) -> Seq<IndicatorIdentifier> {
        seq![self.indicator()]
    }

    /// No signal with fewer than two candles, or where the indicator has
    /// fewer than two readings or an empty one among its last two; else one
    /// signal at the latest candle's time and close, for its symbol, signed
    /// with the strategy's name.
    open spec fn signals(&self, history: HistoryView) -> Seq<Signal> {
        let klines = tail(history.candles, LOOK_BACK as int);
        if klines.len() < 2 {
            Seq::empty()
        } else {
            match crossover_of(closes(klines), tail(history.values[self.indicator()], LOOK_BACK as int)) {
                None => Seq::empty(),
                Some(signal_type) => seq![Signal::of_kline(signal_type, self.name_text(), klines.last())],
            }
        }
    }

    fn name(&self) -> (res: String) {
        self.name.clone()
    }

    fn request_indicators(&self) -> (res: Vec<IndicatorIdentifier>) {
        let mut out: Vec<IndicatorIdentifier> = Vec::new();
        out.push(self.indicator);
        assert(out@ =~= seq![self.indicator]);
        out
    }

    fn generate_signals(&self, history: &History) -> (res: Vec<Signal>) {
        let mut signals: Vec<Signal> = Vec::new();
        let klines = history.last(LOOK_BACK);
        if klines.len() < 2 {
            assert(signals@ =~= self.signals(history@));
            return signals;
        }
        let prices = closing_prices(&klines);
        let indicator_values = history.get_indicator_values(&self.indicator, LOOK_BACK);
        match self.detect_crossover(prices.as_slice(), indicator_values.as_slice()) {
            Some(signal_type) => {
                let latest_kline = &klines[klines.len() - 1];
                signals.push(
                    Signal::new(
                        latest_kline.time,
                        latest_kline.symbol.clone(),
                        signal_type,
                        latest_kline.close,
                        self.name.clone(),
                    ),
                );
                assert(signals@ =~= self.signals(history@));
            },
            None => {
                assert(signals@ =~= self.signals(history@));
            },
        }
        signals
    }
}

} // verus!
