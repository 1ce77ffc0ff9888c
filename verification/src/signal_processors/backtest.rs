//! A consumer that trades on a simulated account.

use crate::data_structures::performance_metrics::PerformanceMetrics;
use crate::data_structures::position::Position;
use crate::data_structures::signal::Signal;
use crate::data_structures::trade::Trade;
use crate::decimal::Decimal;
use crate::engines::trading::metrics::snapshot_of;
use crate::engines::trading::{after_signal, Trading, TradingView};
use crate::signal_processors::SignalProcessor;
use vstd::prelude::*;

verus! {

/// Feeds every signal to a simulated account.
pub struct Backtest {
    core: Trading,
}

impl View for Backtest {
    type V = TradingView;

    closed spec fn view(&self) -> TradingView {
        self.core@
    }
}

impl Backtest {
    /// The invariant of the account behind the consumer.
    pub closed spec fn wf(&self) -> bool {
        self.core.wf()
    }

    /// A consumer whose account starts with the given balance, share of the
    /// balance risked per trade, and fee rate.
    pub fn new(initial_balance: Decimal, risk_per_trade: Decimal, fees: Decimal) -> (res: Self)
        ensures
            res.wf(),
            res@.balance == initial_balance,
            res@.risk_per_trade == risk_per_trade,
            res@.fees == fees,
            res@.positions == Seq::<Position>::empty(),
            res@.last_signal == None::<Signal>,
            res@.metrics.trades == Seq::<Trade>::empty(),
            res@.metrics.initial_balance == initial_balance,
            res@.metrics.equity_curve.len() == 1,
            res@.metrics.equity_curve[0].1 == initial_balance,
    {
        Backtest { core: Trading::new(initial_balance, risk_per_trade, fees) }
    }

    /// The simulated account.
    pub fn account(&self) -> (res: &Trading)
        ensures
            res@ == self@,
            self.wf() ==> res.wf(),
    {
        &self.core
    }

    /// The performance figures of the account as it stands.
    pub fn get_performance_metrics(&self) -> (res: PerformanceMetrics)
        requires
            self.wf(),
        ensures
            res == snapshot_of(self@.metrics),
    {
        self.core.get_performance_metrics()
    }
}

impl SignalProcessor for Backtest {
    open spec fn ready(&self) -> bool {
        self.wf()
    }

    open spec fn next(state: TradingView, signal: Signal) -> TradingView {
        after_signal(state, signal)
    }

    fn process_signal(&mut self, signal: &Signal) {
        self.core.process_signal(signal)
    }
}

} // verus!
