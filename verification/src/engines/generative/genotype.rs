//! Random choice of a strategy and its parameters.

use crate::engines::generative::strategies::crossover::{EMACrossoverStrategyParams, EMA_PERIOD_MAX, EMA_PERIOD_MIN};
use crate::engines::generative::strategies::rsi::{RSI_LEVEL_MAX, RSI_LEVEL_MIN, RSI_PERIOD_MAX, RSI_PERIOD_MIN};
use crate::random::random_between;
use crate::strategies::factory::StrategyIdentifier;
use crate::strategies::rsi_strategy::RSIStrategyParams;
use vstd::prelude::*;

verus! {

impl StrategyIdentifier {
    /// Whether the parameters lie in the ranges from which they are drawn.
    pub open spec fn in_range(self) -> bool {
        match self {
            StrategyIdentifier::EMACrossoverStrategy(params) => EMA_PERIOD_MIN <= params.period <= EMA_PERIOD_MAX,
            StrategyIdentifier::RSIStrategy(params) => {
                &&& RSI_PERIOD_MIN <= params.period <= RSI_PERIOD_MAX
                &&& RSI_LEVEL_MIN <= params.oversold_level@ <= RSI_LEVEL_MAX
                &&& params == RSIStrategyParams::mirrored(params.period, params.oversold_level)
            },
        }
    }

    /// A strategy of a kind chosen evenly among the kinds, with parameters
    /// drawn from their valid ranges.
    pub fn random() -> (res: Self)
        ensures
            res.in_range(),
    {
        let kind = random_between(0, 1);
        if kind == 0 {
            StrategyIdentifier::EMACrossoverStrategy(EMACrossoverStrategyParams::random())
        } else {
            StrategyIdentifier::RSIStrategy(RSIStrategyParams::random())
        }
    }
}

} // verus!
