//! Simulated trading driven by signals.

pub mod metrics;

use crate::data_structures::performance_metrics::PerformanceMetrics;
use crate::data_structures::position::Position;
use crate::data_structures::signal::{Signal, SignalType};
use crate::data_structures::trade::{value_at, Trade};
use crate::decimal::{dec, sat_add, sat_div, sat_mul, sat_sub, Decimal};
use crate::engines::trading::metrics::{snapshot_of, Metrics, MetricsView};
use crate::signal_processors::SignalProcessor;
use vstd::prelude::*;

verus! {

/// What a buy signal did.
#[derive(Debug, Clone, Copy, PartialEq, Eq, Structural)]
pub enum BuyOutcome {
    /// A position was opened.
    Opened,
    /// A position for the symbol was open already; nothing changed.
    AlreadyOpen,
}

/// What a sell signal did.
#[derive(Debug, Clone, Copy, PartialEq, Eq, Structural)]
pub enum SellOutcome {
    /// The position for the symbol was closed and recorded as a trade.
    Closed,
    /// No position for the symbol was open; nothing changed.
    NoPosition,
}

/// The state of a simulated account.
pub struct TradingView {
    pub balance: Decimal,
    pub risk_per_trade: Decimal,
    pub fees: Decimal,
    pub positions: Seq<Position>,
    pub last_signal: Option<Signal>,
    pub metrics: MetricsView,
}

/// Whether a position for `symbol` is open.
pub open spec fn holds(positions: Seq<Position>, symbol: Seq<char>) -> bool {
    exists|i: int| 0 <= i < positions.len() && (#[trigger] positions[i]).symbol@ == symbol
}

/// The place of the open position for `symbol`.
pub open spec fn held_at(positions: Seq<Position>, symbol: Seq<char>) -> int {
    choose|i: int| 0 <= i < positions.len() && (#[trigger] positions[i]).symbol@ == symbol
}

/// Whether no two open positions are for one symbol.
pub open spec fn one_per_symbol(positions: Seq<Position>) -> bool {
    forall|i: int, j: int|
        0 <= i < j < positions.len() ==> (#[trigger] positions[i]).symbol@ != (#[trigger] positions[j]).symbol@
}

/// The balance after buying: the risked share of the balance leaves it,
/// less the fee on that share.
pub open spec fn balance_after_buy(balance: int, risk_per_trade: int, fees: int) -> int {
    let size = sat_mul(balance, risk_per_trade);
    sat_sub(balance, sat_sub(size, sat_mul(size, fees)))
}

/// The amount bought: the risked share of the balance at the signal's
/// price.
pub open spec fn amount_bought(balance: int, risk_per_trade: int, price: int) -> int {
    sat_div(sat_mul(balance, risk_per_trade), price)
}

/// The balance after selling `amount` at `price`: the value of the amount
/// enters it, less the fee on that value.
pub open spec fn balance_after_sell(balance: int, amount: int, price: int, fees: int) -> int {
    let value = value_at(amount, price);
    sat_add(balance, sat_sub(value, sat_mul(value, fees)))
}

/// The account after a buy signal. With a position open for the symbol it
/// is unchanged; else the balance falls, the new balance joins the equity
/// curve at the signal's time, and a position is opened at the signal's
/// time and price.
pub open spec fn after_buy(state: TradingView, signal: Signal) -> TradingView {
    if holds(state.positions, signal.symbol@) {
        state
    } else {
        let balance = dec(balance_after_buy(state.balance@, state.risk_per_trade@, state.fees@));
        let amount = dec(amount_bought(state.balance@, state.risk_per_trade@, signal.price@));
        TradingView {
            balance,
            risk_per_trade: state.risk_per_trade,
            fees: state.fees,
            positions: state.positions.push(Position::opened_by(signal, amount)),
            last_signal: state.last_signal,
            metrics: MetricsView {
                trades: state.metrics.trades,
                equity_curve: state.metrics.equity_curve.push((signal.time, balance)),
                initial_balance: state.metrics.initial_balance,
            },
        }
    }
}

/// The account after a sell signal. With no position open for the symbol
/// it is unchanged; else the position leaves, the trade that closes it is
/// recorded, the balance rises, and the new balance joins the equity curve
/// at the signal's time.
pub open spec fn after_sell(state: TradingView, signal: Signal) -> TradingView {
    if !holds(state.positions, signal.symbol@) {
        state
    } else {
        let at = held_at(state.positions, signal.symbol@);
        let position = state.positions[at];
        let balance = dec(balance_after_sell(state.balance@, position.amount@, signal.price@, state.fees@));
        TradingView {
            balance,
            risk_per_trade: state.risk_per_trade,
            fees: state.fees,
            positions: state.positions.remove(at),
            last_signal: state.last_signal,
            metrics: MetricsView {
                trades: state.metrics.trades.push(Trade::closing(position, signal)),
                equity_curve: state.metrics.equity_curve.push((signal.time, balance)),
                initial_balance: state.metrics.initial_balance,
            },
        }
    }
}

/// The account after any signal: a buy or a sell acts as above, a hold
/// changes nothing, and the signal is remembered as the last one.
pub open spec fn after_signal(state: TradingView, signal: Signal) -> TradingView {
    let acted = match signal.signal_type {
        SignalType::Buy => after_buy(state, signal),
        SignalType::Sell => after_sell(state, signal),
        SignalType::Hold => state,
    };
    TradingView {
        balance: acted.balance,
        risk_per_trade: acted.risk_per_trade,
        fees: acted.fees,
        positions: acted.positions,
        last_signal: Some(signal),
        metrics: acted.metrics,
    }
}

/// Whether `longer` starts with `shorter`.
pub open spec fn extends<T>(longer: Seq<T>, shorter: Seq<T>) -> bool {
    shorter.len() <= longer.len() && longer.take(shorter.len() as int) == shorter
}

/// A signal only appends to the equity curve and to the trades, and a
/// trade is appended exactly where a position is closed.
pub proof fn lemma_signal_appends(state: TradingView, signal: Signal)
    ensures
        extends(after_signal(state, signal).metrics.equity_curve, state.metrics.equity_curve),
        extends(after_signal(state, signal).metrics.trades, state.metrics.trades),
        after_signal(state, signal).metrics.initial_balance == state.metrics.initial_balance,
        after_signal(state, signal).metrics.trades.len() + after_signal(state, signal).positions.len()
            >= state.metrics.trades.len() + state.positions.len(),
        after_signal(state, signal).metrics.trades.len() > state.metrics.trades.len() ==> {
            &&& signal.signal_type is Sell
            &&& holds(state.positions, signal.symbol@)
            &&& after_signal(state, signal).positions.len() == state.positions.len() - 1
            &&& after_signal(state, signal).metrics.trades.last() == Trade::closing(
                state.positions[held_at(state.positions, signal.symbol@)],
                signal,
            )
        },
{
    let after = after_signal(state, signal);
    assert(after.metrics.equity_curve.take(state.metrics.equity_curve.len() as int)
        =~= state.metrics.equity_curve);
    assert(after.metrics.trades.take(state.metrics.trades.len() as int) =~= state.metrics.trades);
}

/// After a buy signal for a symbol, a position for it is open, so that a
/// second buy signal for the symbol changes nothing: neither the balance nor
/// the positions nor the equity curve.
pub proof fn lemma_second_buy_changes_nothing(state: TradingView, first: Signal, second: Signal)
    requires
        first.symbol@ == second.symbol@,
    ensures
        holds(after_buy(state, first).positions, second.symbol@),
        after_buy(after_buy(state, first), second) == after_buy(state, first),
{
    let once = after_buy(state, first);
    if holds(state.positions, first.symbol@) {
        assert(once == state);
    } else {
        assert(once.positions[state.positions.len() as int].symbol@ == second.symbol@);
    }
}

/// Without an open position for the symbol a sell signal changes nothing,
/// and after a sell signal no position for the symbol is open where the
/// positions were one per symbol.
pub proof fn lemma_sell_closes(state: TradingView, signal: Signal)
    requires
        one_per_symbol(state.positions),
    ensures
        !holds(state.positions, signal.symbol@) ==> after_sell(state, signal) == state,
        !holds(after_sell(state, signal).positions, signal.symbol@),
{
    let before = state.positions;
    let after = after_sell(state, signal).positions;
    if holds(before, signal.symbol@) {
        let at = held_at(before, signal.symbol@);
        assert forall|i: int| 0 <= i < after.len() implies (#[trigger] after[i]).symbol@ != signal.symbol@ by {
            let o = if i < at {
                i
            } else {
                i + 1
            };
            assert(after[i] == before[o]);
            if o < at {
                assert(before[o].symbol@ != before[at].symbol@);
            } else {
                assert(before[at].symbol@ != before[o].symbol@);
            }
        }
    }
}

/// A signal keeps the positions at one per symbol.
pub proof fn lemma_signal_keeps_one_per_symbol(state: TradingView, signal: Signal)
    requires
        one_per_symbol(state.positions),
    ensures
        one_per_symbol(after_signal(state, signal).positions),
{
    let before = state.positions;
    let after = after_signal(state, signal).positions;
    assert forall|i: int, j: int| 0 <= i < j < after.len() implies (#[trigger] after[i]).symbol@ != (
    #[trigger] after[j]).symbol@ by {
        match signal.signal_type {
            SignalType::Buy => {
                if holds(before, signal.symbol@) {
                    assert(before[i].symbol@ != before[j].symbol@);
                } else if j == before.len() {
                    assert(before[i].symbol@ != signal.symbol@);
                } else {
                    assert(before[i].symbol@ != before[j].symbol@);
                }
            },
            SignalType::Sell => {
                if holds(before, signal.symbol@) {
                    let at = held_at(before, signal.symbol@);
                    let oi = if i < at {
                        i
                    } else {
                        i + 1
                    };
                    let oj = if j < at {
                        j
                    } else {
                        j + 1
                    };
                    assert(before[oi].symbol@ != before[oj].symbol@);
                } else {
                    assert(before[i].symbol@ != before[j].symbol@);
                }
            },
            SignalType::Hold => {
                assert(before[i].symbol@ != before[j].symbol@);
            },
        }
    }
}

/// A simulated account that opens and closes positions on signals.
pub struct Trading {
    balance: Decimal,
    risk_per_trade: Decimal,
    positions: Vec<Position>,
    last_signal: Option<Signal>,
    fees: Decimal,
    metrics: Metrics,
}

impl View for Trading {
    type V = TradingView;

    closed spec fn view(&self) -> TradingView {
        TradingView {
            balance: self.balance,
            risk_per_trade: self.risk_per_trade,
            fees: self.fees,
            positions: self.positions@,
            last_signal: self.last_signal,
            metrics: self.metrics@,
        }
    }
}

impl Trading {
    /// The invariant of the account: at most one open position per symbol,
    /// and well-formed metrics.
    pub closed spec fn wf(&self) -> bool {
        &&& one_per_symbol(self.positions@)
        &&& self.metrics.wf()
    }

    /// A well-formed account holds at most one position per symbol, and
    /// its equity curve starts with the opening balance.
    pub proof fn lemma_wf(&self)
        requires
            self.wf(),
        ensures
            one_per_symbol(self@.positions),
            self@.metrics.equity_curve.len() >= 1,
            self@.metrics.equity_curve[0].1 == self@.metrics.initial_balance,
    {
        self.metrics.lemma_wf();
    }

    /// An account with the given balance, share of the balance risked per
    /// trade, and fee rate; no position, no trade, and an equity curve that
    /// holds the balance at the present time.
    pub fn new(balance: Decimal, risk_per_trade: Decimal, fees: Decimal) -> (res: Self)
        ensures
            res.wf(),
            res@.balance == balance,
            res@.risk_per_trade == risk_per_trade,
            res@.fees == fees,
            res@.positions == Seq::<Position>::empty(),
            res@.last_signal == None::<Signal>,
            res@.metrics.trades == Seq::<Trade>::empty(),
            res@.metrics.initial_balance == balance,
            res@.metrics.equity_curve.len() == 1,
            res@.metrics.equity_curve[0].1 == balance,
    {
        let res = Trading {
            balance,
            risk_per_trade,
            positions: Vec::new(),
            last_signal: None,
            fees,
            metrics: Metrics::new(balance),
        };
        assert(res@.positions =~= Seq::<Position>::empty());
        res
    }

    /// The balance.
    pub fn balance(&self) -> (res: Decimal)
        ensures
            res == self@.balance,
    {
        self.balance
    }

    /// Number of open positions.
    pub fn position_count(&self) -> (res: usize)
        ensures
            res == self@.positions.len(),
    {
        self.positions.len()
    }

    /// The open position for `symbol`, if there is one.
    pub fn position(&self, symbol: &String) -> (res: Option<Position>)
        requires
            self.wf(),
        ensures
            match res {
                Some(position) => holds(self@.positions, symbol@) && position == self@.positions[held_at(
                    self@.positions,
                    symbol@,
                )],
                None => !holds(self@.positions, symbol@),
            },
    {
        match self.find_position(symbol) {
            Some(at) => Some(self.positions[at].clone()),
            None => None,
        }
    }

    /// The last signal the account was given, if any.
    pub fn last_signal(&self) -> (res: Option<Signal>)
        ensures
            res == self@.last_signal,
    {
        match &self.last_signal {
            Some(signal) => Some(signal.clone()),
            None => None,
        }
    }

    /// The record of trades and balances.
    pub fn metrics(&self) -> (res: &Metrics)
        ensures
            res@ == self@.metrics,
            self.wf() ==> res.wf(),
    {
        &self.metrics
    }

    /// The place of the open position for `symbol`.
    fn find_position(&self, symbol: &String) -> (res: Option<usize>)
        requires
            self.wf(),
        ensures
            match res {
                Some(i) => holds(self@.positions, symbol@) && i == held_at(self@.positions, symbol@) && i
                    < self@.positions.len(),
                None => !holds(self@.positions, symbol@),
            },
    {
        let mut i: usize = 0;
        while i < self.positions.len()
            invariant
                self.wf(),
                i <= self.positions@.len(),
                forall|k: int| 0 <= k < i ==> (#[trigger] self.positions@[k]).symbol@ != symbol@,
            decreases self.positions@.len() - i,
        {
            if self.positions[i].symbol == *symbol {
                proof {
                    let positions = self.positions@;
                    assert(positions[i as int].symbol@ == symbol@);
                    let k = held_at(positions, symbol@);
                    assert(0 <= k < positions.len() && positions[k].symbol@ == symbol@);
                    assert(k == i);
                }
                return Some(i);
            }
            i = i + 1;
        }
        None
    }

    /// Whether a position for `symbol` is open.
    pub fn has_position(&self, symbol: &String) -> (res: bool)
        requires
            self.wf(),
        ensures
            res == holds(self@.positions, symbol@),
    {
        self.find_position(symbol).is_some()
    }

    /// Acts on a buy signal. With a position open for the symbol nothing
    /// changes.
    pub fn execute_buy(&mut self, signal: &Signal) -> (res: BuyOutcome)
        requires
            old(self).wf(),
        ensures
            final(self).wf(),
            final(self)@ == after_buy(old(self)@, *signal),
            res == if holds(old(self)@.positions, signal.symbol@) {
                BuyOutcome::AlreadyOpen
            } else {
                BuyOutcome::Opened
            },
            holds(old(self)@.positions, signal.symbol@) ==> *final(self) == *old(self),
    {
        if self.has_position(&signal.symbol) {
            return BuyOutcome::AlreadyOpen;
        }
        let position_size = self.balance.times(self.risk_per_trade);
        let amount = position_size.over(signal.price);
        let fee_amount = position_size.times(self.fees);
        self.balance = self.balance.minus(position_size.minus(fee_amount));
        self.metrics.update_equity_curve(signal.time, self.balance);
        let position = Position::from_signal(signal, amount);
        self.positions.push(position);
        proof {
            let before = old(self).positions@;
            assert forall|i: int, j: int| 0 <= i < j < self.positions@.len() implies (#[trigger] self.positions@[i]).symbol@
                != (#[trigger] self.positions@[j]).symbol@ by {
                if j == before.len() {
                    assert(before[i].symbol@ != signal.symbol@);
                } else {
                    assert(before[i].symbol@ != before[j].symbol@);
                }
            }
        }
        BuyOutcome::Opened
    }

    /// Acts on a sell signal. With no position open for the symbol nothing
    /// changes.
    pub fn execute_sell(&mut self, signal: &Signal) -> (res: SellOutcome)
        requires
            old(self).wf(),
        ensures
            final(self).wf(),
            final(self)@ == after_sell(old(self)@, *signal),
            res == if holds(old(self)@.positions, signal.symbol@) {
                SellOutcome::Closed
            } else {
                SellOutcome::NoPosition
            },
            !holds(old(self)@.positions, signal.symbol@) ==> *final(self) == *old(self),
    {
        match self.find_position(&signal.symbol) {
            None => SellOutcome::NoPosition,
            Some(at) => {
                let position = self.positions.remove(at);
                let trade = Trade::from_position_and_sell_signal(&position, signal);
                let value = trade.position_value();
                let fee_amount = value.times(self.fees);
                self.balance = self.balance.plus(value.minus(fee_amount));
                self.metrics.add_trade(trade);
                self.metrics.update_equity_curve(signal.time, self.balance);
                proof {
                    let before = old(self).positions@;
                    assert forall|i: int, j: int| 0 <= i < j < self.positions@.len() implies (
                    #[trigger] self.positions@[i]).symbol@ != (#[trigger] self.positions@[j]).symbol@ by {
                        let oi = if i < at { i } else { i + 1 };
                        let oj = if j < at { j } else { j + 1 };
                        assert(before[oi].symbol@ != before[oj].symbol@);
                    }
                }
                SellOutcome::Closed
            },
        }
    }

    /// The performance figures of the account as it stands.
    pub fn get_performance_metrics(&self) -> (res: PerformanceMetrics)
        requires
            self.wf(),
        ensures
            res == snapshot_of(self@.metrics),
    {
        self.metrics.get_performance_metrics()
    }
}

impl SignalProcessor for Trading {
    open spec fn ready(&self) -> bool {
        self.wf()
    }

    open spec fn next(state: TradingView, signal: Signal) -> TradingView {
        after_signal(state, signal)
    }

    /// Buys on a buy signal, sells on a sell signal, and remembers the
    /// signal as the last one.
    fn process_signal(&mut self, signal: &Signal) {
        match signal.signal_type {
            SignalType::Buy => {
                let _ = self.execute_buy(signal);
            },
            SignalType::Sell => {
                let _ = self.execute_sell(signal);
            },
            SignalType::Hold => {},
        }
        self.last_signal = Some(signal.clone());
    }
}

} // verus!
