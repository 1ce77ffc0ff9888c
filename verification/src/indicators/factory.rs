//! Builds the calculator that an identifier names.

use crate::data_structures::history::History;
use crate::data_structures::kline::Kline;
use crate::decimal::Decimal;
use crate::indicators::ema::EMA;
use crate::indicators::rsi::RSI;
use crate::indicators::{indicator_values, Indicator, IndicatorIdentifier};
use vstd::prelude::*;

verus! {

/// Any of the calculators this crate provides.
#[derive(Debug, PartialEq, Eq)]
pub enum Calculator {
    RSI(RSI),
    EMA(EMA),
}

impl Calculator {
    /// The identifier whose values the calculator yields.
    pub open spec fn identifier(&self) -> IndicatorIdentifier {
        match self {
            Calculator::RSI(rsi) => IndicatorIdentifier::RSI(crate::indicators::rsi::RSIParams { period: rsi.period }),
            Calculator::EMA(ema) => IndicatorIdentifier::EMA(ema.params),
        }
    }
}

impl Indicator for Calculator {
    open spec fn name_spec(&self) -> Seq<char> {
        match self {
            Calculator::RSI(rsi) => rsi.name_spec(),
            Calculator::EMA(ema) => ema.name_spec(),
        }
    }

    open spec fn values(&self, candles: Seq<Kline>) -> Seq<Decimal> {
        indicator_values(self.identifier(), candles)
    }

    fn name(&self) -> (res: String) {
        match self {
            Calculator::RSI(rsi) => rsi.name(),
            Calculator::EMA(ema) => ema.name(),
        }
    }

    fn calculate(&self, history: &History) -> (res: Vec<Decimal>) {
        match self {
            Calculator::RSI(rsi) => rsi.calculate(history),
            Calculator::EMA(ema) => ema.calculate(history),
        }
    }
}

/// Whether `calculator` is the one that is built for `id`: of its kind,
/// with its parameters, and named after them.
pub open spec fn made_for(calculator: Calculator, id: IndicatorIdentifier) -> bool {
    match id {
        IndicatorIdentifier::RSI(params) => {
            &&& calculator matches Calculator::RSI(rsi)
            &&& rsi.period == params.period
            &&& rsi.name@ == params.name_spec()
        },
        IndicatorIdentifier::EMA(params) => calculator == Calculator::EMA(EMA { params }),
    }
}

/// Builds calculators from identifiers.
pub struct Factory {}

impl Factory {
    /// The calculator for `indicator`: of the identifier's kind, with its
    /// parameters, and named after them.
    pub fn create(indicator: &IndicatorIdentifier) -> (res: Calculator)
        ensures
            made_for(res, *indicator),
            res.identifier() == *indicator,
    {
        match indicator {
            IndicatorIdentifier::RSI(params) => Calculator::RSI(RSI::new(params.name(), params.period)),
            IndicatorIdentifier::EMA(params) => Calculator::EMA(EMA::new(*params)),
        }
    }
}

} // verus!
