//! Builds the strategy that a parameter descriptor names.

use crate::data_structures::history::{History, HistoryView};
use crate::data_structures::signal::Signal;
use crate::engines::generative::strategies::crossover::EMACrossoverStrategyParams;
use crate::indicators::ema::EMAParams;
use crate::indicators::IndicatorIdentifier;
use crate::strategies::crossover::PriceCrossOverStrategy;
use crate::strategies::rsi_strategy::{RSIStrategy, RSIStrategyParams};
use crate::strategies::Strategy;
use vstd::prelude::*;
use vstd::string::*;

verus! {

/// Names a strategy by its kind and parameters.
#[derive(Debug, Clone, Copy, PartialEq, Eq, Structural)]
pub enum StrategyIdentifier {
    EMACrossoverStrategy(EMACrossoverStrategyParams),
    RSIStrategy(RSIStrategyParams),
}

/// Any of the strategies this crate provides.
#[derive(Debug, PartialEq, Eq)]
pub enum AnyStrategy {
    PriceCrossOver(PriceCrossOverStrategy),
    RSI(RSIStrategy),
}

impl Strategy for AnyStrategy {
    open spec fn name_spec(&self) -> Seq<char> {
        match self {
            AnyStrategy::PriceCrossOver(s) => s.name_spec(),
            AnyStrategy::RSI(s) => s.name_spec(),
        }
    }

    open spec fn indicators(&self) -> Seq<IndicatorIdentifier> {
        match self {
            AnyStrategy::PriceCrossOver(s) => s.indicators(),
            AnyStrategy::RSI(s) => s.indicators(),
        }
    }

    open spec fn signals(&self, history: HistoryView) -> Seq<Signal> {
        match self {
            AnyStrategy::PriceCrossOver(s) => s.signals(history),
            AnyStrategy::RSI(s) => s.signals(history),
        }
    }

    fn name(&self) -> (res: String) {
        match self {
            AnyStrategy::PriceCrossOver(s) => s.name(),
            AnyStrategy::RSI(s) => s.name(),
        }
    }

    fn request_indicators(&self) -> (res: Vec<IndicatorIdentifier>) {
        match self {
            AnyStrategy::PriceCrossOver(s) => s.request_indicators(),
            AnyStrategy::RSI(s) => s.request_indicators(),
        }
    }

    fn generate_signals(&self, history: &History) -> (res: Vec<Signal>) {
        match self {
            AnyStrategy::PriceCrossOver(s) => s.generate_signals(history),
            AnyStrategy::RSI(s) => s.generate_signals(history),
        }
    }
}

/// Builds strategies from identifiers.
pub struct Factory {}

impl Factory {
    /// The strategy for `strategy`: a price crossover named `EmaCrossover`
    /// against the moving average of the given period, or an index strategy
    /// named `RSI` with the given parameters.
    pub fn create(strategy: &StrategyIdentifier) -> (res: AnyStrategy)
        ensures
            match *strategy {
                StrategyIdentifier::EMACrossoverStrategy(params) => {
                    &&& res matches AnyStrategy::PriceCrossOver(s)
                    &&& s.name_text()@ == "EmaCrossover"@
                    &&& s.indicator() == IndicatorIdentifier::EMA(EMAParams { period: params.period })
                },
                StrategyIdentifier::RSIStrategy(params) => {
                    &&& res matches AnyStrategy::RSI(s)
                    &&& s.name_text()@ == "RSI"@
                    &&& s.params() == params
                },
            },
    {
        match strategy {
            StrategyIdentifier::EMACrossoverStrategy(params) => AnyStrategy::PriceCrossOver(
                PriceCrossOverStrategy::new(
                    String::from_str("EmaCrossover"),
                    IndicatorIdentifier::EMA(EMAParams { period: params.period }),
                ),
            ),
            StrategyIdentifier::RSIStrategy(params) => AnyStrategy::RSI(
                RSIStrategy::new(String::from_str("RSI"), *params),
            ),
        }
    }
}

} // verus!
