//! Signals from the relative strength index leaving its outer bands.

use crate::data_structures::history::{rows, History, HistoryView};
use crate::data_structures::signal::{Signal, SignalType};
use crate::decimal::Decimal;
use crate::data_structures::timeline::tail;
use crate::indicators::rsi::RSIParams;
use crate::indicators::IndicatorIdentifier;
use crate::strategies::{Strategy, LOOK_BACK};
use vstd::prelude::*;

verus! {

/// Period of the index and the two levels that bound its middle band.
#[derive(Debug, Clone, Copy, PartialEq, Eq, Structural)]
pub struct RSIStrategyParams {
    pub period: usize,
    pub oversold_level: Decimal,
    pub overbought_level: Decimal,
}

/// The direction for two consecutive readings of the index: buy where it
/// rises above the oversold level from at or below it, sell where it falls
/// below the overbought level from at or above it, hold otherwise.
pub open spec fn band_direction(params: RSIStrategyParams, previous: Decimal, current: Decimal) -> SignalType {
    if previous@ <= params.oversold_level@ && current@ > params.oversold_level@ {
        SignalType::Buy
    } else if previous@ >= params.overbought_level@ && current@ < params.overbought_level@ {
        SignalType::Sell
    } else {
        SignalType::Hold
    }
}

/// The direction for a series of reading vectors, of which the last two
/// count, and of each its last value. There is none with fewer than two
/// readings, or where one of the two is empty.
pub open spec fn band_signal_of(params: RSIStrategyParams, readings: Seq<Seq<Decimal>>) -> Option<SignalType> {
    if readings.len() < 2 {
        None
    } else if readings[readings.len() - 1].len() == 0 || readings[readings.len() - 2].len() == 0 {
        None
    } else {
        Some(band_direction(params, readings[readings.len() - 2].last(), readings[readings.len() - 1].last()))
    }
}

/// Follows the relative strength index across its oversold and overbought
/// levels.
#[derive(Debug, PartialEq, Eq)]
pub struct RSIStrategy {
    name: String,
    params: RSIStrategyParams,
}

impl RSIStrategy {
    /// The strategy's parameters.
    pub closed spec fn params(&self) -> RSIStrategyParams {
        self.params
    }

    /// The strategy's name, as text.
    pub closed spec fn name_text(&self) -> String {
        self.name
    }

    /// The identifier of the index the strategy reads.
    pub open spec fn descriptor(&self) -> IndicatorIdentifier {
        IndicatorIdentifier::RSI(RSIParams { period: self.params().period })
    }

    /// A strategy called `name` with the given parameters.
    pub fn new(name: String, params: RSIStrategyParams) -> (res: Self)
        ensures
            res.name_text() == name,
            res.params() == params,
    {
        RSIStrategy { name, params }
    }

    /// The direction for the last two readings.
    pub fn detect_signal(&self, indicator_series: &[Vec<Decimal>]) -> (res: Option<SignalType>)
        ensures
            res == band_signal_of(self.params(), rows(indicator_series@)),
    {
        if indicator_series.len() < LOOK_BACK {
            return None;
        }
        let current_readings = &indicator_series[indicator_series.len() - 1];
        let previous_readings = &indicator_series[indicator_series.len() - 2];
        if current_readings.len() == 0 || previous_readings.len() == 0 {
            return None;
        }
        let current_rsi = current_readings[current_readings.len() - 1];
        let previous_rsi = previous_readings[previous_readings.len() - 1];
        if previous_rsi.le(self.params.oversold_level) && current_rsi.gt(self.params.oversold_level) {
            Some(SignalType::Buy)
        } else if previous_rsi.ge(self.params.overbought_level) && current_rsi.lt(self.params.overbought_level) {
            Some(SignalType::Sell)
        } else {
            Some(SignalType::Hold)
        }
    }

    /// The identifier of the index the strategy reads.
    pub fn rsi_indicator_descriptor(&self) -> (res: IndicatorIdentifier)
        ensures
            res == self.descriptor(),
    {
        IndicatorIdentifier::RSI(RSIParams { period: self.params.period })
    }
}

impl Strategy for RSIStrategy {
    open spec fn name_spec(&self) -> Seq<char> {
        self.name_text()@
    }

    open spec fn indicators(&self) -> Seq<IndicatorIdentifier> {
        seq![self.descriptor()]
    }

    /// No signal with fewer than two candles, or where the index has fewer
    /// than two readings or an empty one among its last two; else one signal
    /// made from the latest candle and signed with the strategy's name.
    open spec fn signals(&self, history: HistoryView) -> Seq<Signal> {
        let klines = tail(history.candles, LOOK_BACK as int);
        if klines.len() < 2 {
            Seq::empty()
        } else {
            match band_signal_of(self.params(), tail(history.values[self.descriptor()], LOOK_BACK as int)) {
                None => Seq::empty(),
                Some(signal_type) => seq![Signal::of_kline(signal_type, self.name_text(), klines.last())],
            }
        }
    }

    fn name(&self) -> (res: String) {
        self.name.clone()
    }

    fn request_indicators(&self) -> (res: Vec<IndicatorIdentifier>) {
        let mut out: Vec<IndicatorIdentifier> = Vec::new();
        out.push(self.rsi_indicator_descriptor());
        assert(out@ =~= seq![self.descriptor()]);
        out
    }

    fn generate_signals(&self, history: &History) -> (res: Vec<Signal>) {
        let mut signals: Vec<Signal> = Vec::new();
        let klines = history.last(LOOK_BACK);
        if klines.len() < LOOK_BACK {
            assert(signals@ =~= self.signals(history@));
            return signals;
        }
        let indicator_values = history.get_indicator_values(&self.rsi_indicator_descriptor(), LOOK_BACK);
        match self.detect_signal(indicator_values.as_slice()) {
            Some(signal_type) => {
                let latest_kline = &klines[klines.len() - 1];
                signals.push(Signal::with_kline(signal_type, self.name.clone(), latest_kline));
                assert(signals@ =~= self.signals(history@));
            },
            None => {
                assert(signals@ =~= self.signals(history@));
            },
        }
        signals
    }
}

} // verus!
