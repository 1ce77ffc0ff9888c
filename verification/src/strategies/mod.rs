//! Strategies read a history and recommend a direction.

pub mod crossover;
pub mod factory;
pub mod rsi_strategy;

use crate::data_structures::history::{History, HistoryView};
use crate::data_structures::signal::Signal;
use crate::indicators::IndicatorIdentifier;
use vstd::prelude::*;

verus! {

/// Number of candles and of indicator readings a strategy looks back over.
pub const LOOK_BACK: usize = 2;

/// An evaluator that turns the latest state of a history into at most one
/// signal.
pub trait Strategy {
    /// The name the strategy reports and signs its signals with.
    spec fn name_spec(&self) -> Seq<char>;

    /// The indicators the strategy reads.
    spec fn indicators(&self) -> Seq<IndicatorIdentifier>;

    /// The signals the strategy gives on `history`.
    spec fn signals(&self, history: HistoryView) -> Seq<Signal>;

    /// The strategy's name.
    fn name(&self) -> (res: String)
        ensures
            res@ == self.name_spec(),
    ;

    /// The indicators that must be requested from a history before the
    /// strategy is evaluated on it.
    fn request_indicators(&self) -> (res: Vec<IndicatorIdentifier>)
        ensures
            res@ == self.indicators(),
    ;

    /// Evaluates the strategy on the two most recent candles and readings.
    fn generate_signals(&self, history: &History) -> (res: Vec<Signal>)
        requires
            history.wf(),
        ensures
            res@ == self.signals(history@),
    ;
}

} // verus!
