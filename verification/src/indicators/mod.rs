//! Technical indicators computed from a candle history.

pub mod ema;
pub mod factory;
pub mod rsi;

use crate::data_structures::history::History;
use crate::data_structures::kline::{closes, Kline};
use crate::decimal::Decimal;
use crate::indicators::ema::{ema_values, EMAParams};
use crate::indicators::rsi::{rsi_values, RSIParams};
use vstd::prelude::*;

verus! {

/// Names an indicator by its kind and parameters. Two identifiers are equal
/// when kind and parameters are.
#[derive(Eq, Hash, PartialEq, Clone, Copy, Debug, Structural)]
pub enum IndicatorIdentifier {
    RSI(RSIParams),
    EMA(EMAParams),
}

/// The values that the indicator named by `id` yields on a history that
/// holds `candles`.
pub open spec fn indicator_values(id: IndicatorIdentifier, candles: Seq<Kline>) -> Seq<Decimal> {
    match id {
        IndicatorIdentifier::RSI(params) => rsi_values(closes(candles), params.period as int),
        IndicatorIdentifier::EMA(params) => ema_values(closes(candles), params.period as int),
    }
}

/// A calculator that is evaluated against a whole history.
pub trait Indicator {
    /// The name the calculator reports.
    spec fn name_spec(&self) -> Seq<char>;

    /// The values the calculator yields on a history that holds `candles`.
    spec fn values(&self, candles: Seq<Kline>) -> Seq<Decimal>;

    /// The calculator's name.
    fn name(&self) -> (res: String)
        ensures
            res@ == self.name_spec(),
    ;

    /// Evaluates the calculator on the candles of `history`.
    fn calculate(&self, history: &History) -> (res: Vec<Decimal>)
        requires
            history.wf(),
        ensures
            res@ == self.values(history.candles()),
    ;
}

} // verus!
