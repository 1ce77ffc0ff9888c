//! Parameters of the moving-average crossover strategy.

use crate::random::random_between;
use vstd::prelude::*;

verus! {

/// Smallest period that is generated.
pub const EMA_PERIOD_MIN: usize = 5;

/// Largest period that is generated.
pub const EMA_PERIOD_MAX: usize = 50;

/// Period of the moving average the price is compared with.
#[derive(Debug, Clone, Copy, PartialEq, Eq, Structural)]
pub struct EMACrossoverStrategyParams {
    pub period: usize,
}

impl EMACrossoverStrategyParams {
    /// Parameters with a period drawn from the valid range.
    pub fn random() -> (res: Self)
        ensures
            EMA_PERIOD_MIN <= res.period <= EMA_PERIOD_MAX,
    {
        let period = random_between(EMA_PERIOD_MIN as i64, EMA_PERIOD_MAX as i64);
        EMACrossoverStrategyParams { period: period as usize }
    }
}

} // verus!
