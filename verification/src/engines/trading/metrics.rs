//! Closed trades, the equity curve, and the figures derived from them.

use crate::clock::now_millis;
use crate::data_structures::performance_metrics::PerformanceMetrics;
use crate::data_structures::trade::Trade;
use crate::decimal::{clamp, dec, lemma_sat_monotone, narrow, sat_div, sat_mul, sat_sub, trunc_div, wide_div, Decimal, SCALE};
use crate::statistics::{mean, mean_of, sat_sqrt, sum_raw, total, variance, variance_of};
use vstd::prelude::*;

verus! {

/// Number of trading periods in a year, by which the yearly risk-free rate
/// is divided.
pub const TRADE_PERIODS: i64 = 365;

/// What a metrics record holds: the closed trades in the order they were
/// closed, the equity curve from the opening balance on, and the opening
/// balance.
pub struct MetricsView {
    pub trades: Seq<Trade>,
    pub equity_curve: Seq<(i64, Decimal)>,
    pub initial_balance: Decimal,
}

/// The highest balance on the curve; zero for an empty curve.
pub open spec fn peak(curve: Seq<(i64, Decimal)>) -> int
    decreases curve.len(),
{
    if curve.len() == 0 {
        0
    } else if curve.len() == 1 {
        curve[0].1@
    } else if peak(curve.drop_last()) >= curve.last().1@ {
        peak(curve.drop_last())
    } else {
        curve.last().1@
    }
}

/// How far `balance` lies below `peak`, as a percentage of the peak; zero
/// where the peak is not above zero.
pub open spec fn drawdown_percent(peak: int, balance: int) -> int {
    if peak > 0 {
        sat_mul(sat_div(sat_sub(peak, balance), peak), 100 * SCALE)
    } else {
        0
    }
}

/// The drawdown at point `i` of the curve, against the highest balance up
/// to and including that point.
pub open spec fn drawdown_at(curve: Seq<(i64, Decimal)>, i: int) -> int {
    drawdown_percent(peak(curve.take(i + 1)), curve[i].1@)
}

/// The largest drawdown at any point after the first; zero where there is
/// none.
pub open spec fn max_drawdown_of(curve: Seq<(i64, Decimal)>) -> int
    decreases curve.len(),
{
    if curve.len() <= 1 {
        0
    } else if max_drawdown_of(curve.drop_last()) >= drawdown_at(curve, curve.len() - 1) {
        max_drawdown_of(curve.drop_last())
    } else {
        drawdown_at(curve, curve.len() - 1)
    }
}

/// The relative change from each balance to the next, for every balance
/// above zero that has a next one.
pub open spec fn returns_of(curve: Seq<(i64, Decimal)>) -> Seq<Decimal>
    decreases curve.len(),
{
    if curve.len() <= 1 {
        Seq::empty()
    } else {
        let before = returns_of(curve.drop_last());
        let previous = curve[curve.len() - 2].1@;
        let current = curve.last().1@;
        if previous > 0 {
            before.push(dec(sat_div(sat_sub(current, previous), previous)))
        } else {
            before
        }
    }
}

/// The Sharpe ratio of the curve's returns for a yearly risk-free rate: the
/// mean return less the rate per period, over the population standard
/// deviation, both scaled by the square root of the periods. Zero with
/// fewer than two points, with no return, or where the deviation is zero.
pub open spec fn sharpe_of(curve: Seq<(i64, Decimal)>, risk_free_rate: int) -> int {
    let rates = returns_of(curve);
    if curve.len() < 2 || rates.len() == 0 {
        0
    } else {
        let avg = mean(rates);
        let std_dev = sat_sqrt(variance(rates));
        let root = sat_sqrt(TRADE_PERIODS * SCALE);
        if std_dev == 0 {
            0
        } else {
            sat_div(
                sat_mul(sat_sub(avg, sat_div(risk_free_rate, TRADE_PERIODS * SCALE)), root),
                sat_mul(std_dev, root),
            )
        }
    }
}

/// The profits of the trades that made one, in their order.
pub open spec fn profits_of(trades: Seq<Trade>) -> Seq<Decimal>
    decreases trades.len(),
{
    if trades.len() == 0 {
        Seq::empty()
    } else if trades.last().profit_loss@ > 0 {
        profits_of(trades.drop_last()).push(trades.last().profit_loss)
    } else {
        profits_of(trades.drop_last())
    }
}

/// The losses of the trades that made one, as amounts above zero, in
/// their order. A trade that broke even is neither a profit nor a loss.
pub open spec fn losses_of(trades: Seq<Trade>) -> Seq<Decimal>
    decreases trades.len(),
{
    if trades.len() == 0 {
        Seq::empty()
    } else if trades.last().profit_loss@ < 0 {
        losses_of(trades.drop_last()).push(dec(clamp(-trades.last().profit_loss@)))
    } else {
        losses_of(trades.drop_last())
    }
}

/// The profit or loss of every trade, in their order.
pub open spec fn results_of(trades: Seq<Trade>) -> Seq<Decimal> {
    trades.map_values(|t: Trade| t.profit_loss)
}

/// Share of the trades that made a profit, in percent; zero without trades.
pub open spec fn win_rate_of(trades: Seq<Trade>) -> int {
    if trades.len() == 0 {
        0
    } else {
        trunc_div(profits_of(trades).len() * 100 * SCALE, trades.len() as int)
    }
}

/// Mean profit over mean loss; zero where the mean loss is not above zero.
pub open spec fn risk_reward_of(trades: Seq<Trade>) -> int {
    if mean(losses_of(trades)) > 0 {
        sat_div(mean(profits_of(trades)), mean(losses_of(trades)))
    } else {
        0
    }
}

/// Gain of the final balance over the initial one, in percent.
pub open spec fn return_percent_of(initial_balance: int, final_balance: int) -> int {
    sat_mul(sat_sub(sat_div(final_balance, initial_balance), SCALE as int), 100 * SCALE)
}

/// The snapshot of a metrics record.
pub open spec fn snapshot_of(view: MetricsView) -> PerformanceMetrics {
    PerformanceMetrics {
        initial_balance: view.initial_balance,
        final_balance: view.equity_curve.last().1,
        total_trades: view.trades.len() as usize,
        profitable_trades: profits_of(view.trades).len() as usize,
        win_rate: dec(win_rate_of(view.trades)),
        total_profit_loss: dec(clamp(total(results_of(view.trades)))),
        total_return_percent: dec(return_percent_of(view.initial_balance@, view.equity_curve.last().1@)),
        avg_profit: dec(mean(profits_of(view.trades))),
        avg_loss: dec(mean(losses_of(view.trades))),
        risk_reward_ratio: dec(risk_reward_of(view.trades)),
        sharpe_ratio: dec(sharpe_of(view.equity_curve, 0)),
        max_drawdown: dec(max_drawdown_of(view.equity_curve)),
    }
}

/// Appending a point never lowers the largest drawdown.
pub proof fn lemma_max_drawdown_grows(curve: Seq<(i64, Decimal)>, point: (i64, Decimal))
    ensures
        max_drawdown_of(curve.push(point)) >= max_drawdown_of(curve),
        max_drawdown_of(curve) >= 0,
    decreases curve.len(),
{
    assert(curve.push(point).drop_last() == curve);
    if curve.len() > 1 {
        let shorter = curve.drop_last();
        assert(shorter.push(curve.last()) == curve);
        lemma_max_drawdown_grows(shorter, curve.last());
    }
}

/// Under one peak, the lower balance has the deeper drawdown.
pub proof fn lemma_drawdown_deepens(peak: int, lower: int, higher: int)
    requires
        lower <= higher,
    ensures
        drawdown_percent(peak, lower) >= drawdown_percent(peak, higher),
{
    if peak > 0 {
        let far = sat_sub(peak, lower);
        let near = sat_sub(peak, higher);
        lemma_sat_monotone(near, far, peak);
        lemma_sat_monotone(sat_div(near, peak), sat_div(far, peak), 100 * SCALE);
    }
}

/// The highest balance on a curve is at least its last balance.
pub proof fn lemma_peak_covers_last(curve: Seq<(i64, Decimal)>)
    requires
        curve.len() >= 1,
    ensures
        peak(curve) >= curve.last().1@,
{
}

/// While the balance falls after a peak, the drawdown of each new point is
/// at least that of the point before, so that the largest drawdown is the
/// last one or an earlier, deeper one, and never falls.
pub proof fn lemma_falling_balance(curve: Seq<(i64, Decimal)>, point: (i64, Decimal))
    requires
        curve.len() >= 1,
        point.1@ <= curve.last().1@,
    ensures
        peak(curve.push(point)) == peak(curve),
        drawdown_at(curve.push(point), curve.len() as int) >= drawdown_at(curve, curve.len() - 1),
        max_drawdown_of(curve.push(point)) >= drawdown_at(curve.push(point), curve.len() as int),
        max_drawdown_of(curve.push(point)) >= max_drawdown_of(curve),
{
    let longer = curve.push(point);
    assert(longer.drop_last() == curve);
    assert(longer.take(longer.len() as int) == longer);
    assert(curve.take(curve.len() as int) == curve);
    lemma_peak_covers_last(curve);
    lemma_drawdown_deepens(peak(curve), point.1@, curve.last().1@);
    lemma_max_drawdown_grows(curve, point);
}

/// The peak and the drawdowns of a curve's beginning are those of the
/// curve.
pub proof fn lemma_drawdown_prefix(curve: Seq<(i64, Decimal)>, n: int, i: int)
    requires
        0 <= i < n <= curve.len(),
    ensures
        drawdown_at(curve.take(n), i) == drawdown_at(curve, i),
{
    assert(curve.take(n).take(i + 1) == curve.take(i + 1));
}

/// No trade is both a profit and a loss: the profits and the losses
/// together are at most as many as the trades.
pub proof fn lemma_partition_len(trades: Seq<Trade>)
    ensures
        profits_of(trades).len() + losses_of(trades).len() <= trades.len(),
    decreases trades.len(),
{
    if trades.len() > 0 {
        lemma_partition_len(trades.drop_last());
    }
}

/// Records closed trades and the balance after every change, and derives
/// performance figures from them on demand.
pub struct Metrics {
    completed_trades: Vec<Trade>,
    equity_curve: Vec<(i64, Decimal)>,
    drawdowns: Vec<(i64, Decimal)>,
    max_equity: Decimal,
    initial_balance: Decimal,
    final_balance: Decimal,
}

impl View for Metrics {
    type V = MetricsView;

    closed spec fn view(&self) -> MetricsView {
        MetricsView {
            trades: self.completed_trades@,
            equity_curve: self.equity_curve@,
            initial_balance: self.initial_balance,
        }
    }
}

impl Metrics {
    /// The invariant of the record: the curve starts with the opening
    /// balance, and the running peak, the last balance and the drawdown of
    /// every later point are kept in step with it.
    pub closed spec fn wf(&self) -> bool {
        &&& self.equity_curve@.len() >= 1
        &&& self.equity_curve@[0].1 == self.initial_balance
        &&& self.final_balance == self.equity_curve@.last().1
        &&& self.max_equity@ == peak(self.equity_curve@)
        &&& self.drawdowns@.len() == self.equity_curve@.len() - 1
        &&& forall|i: int|
            0 <= i < self.drawdowns@.len() ==> (#[trigger] self.drawdowns@[i]).1@ == drawdown_at(
                self.equity_curve@,
                i + 1,
            )
    }

    /// The curve of a well-formed record starts with the opening balance.
    pub proof fn lemma_wf(&self)
        requires
            self.wf(),
        ensures
            self@.equity_curve.len() >= 1,
            self@.equity_curve[0].1 == self@.initial_balance,
    {
    }

    /// A record that opens with `initial_balance` at `time`.
    pub fn starting_at(initial_balance: Decimal, time: i64) -> (res: Self)
        ensures
            res.wf(),
            res@.trades == Seq::<Trade>::empty(),
            res@.equity_curve == seq![(time, initial_balance)],
            res@.initial_balance == initial_balance,
    {
        let mut equity_curve: Vec<(i64, Decimal)> = Vec::new();
        equity_curve.push((time, initial_balance));
        let res = Metrics {
            initial_balance,
            final_balance: initial_balance,
            completed_trades: Vec::new(),
            equity_curve,
            drawdowns: Vec::new(),
            max_equity: initial_balance,
        };
        assert(res@.equity_curve =~= seq![(time, initial_balance)]);
        assert(res@.trades =~= Seq::<Trade>::empty());
        res
    }

    /// A record that opens with `initial_balance` now: its curve holds that
    /// balance at the time the system clock gives.
    pub fn new(initial_balance: Decimal) -> (res: Self)
        ensures
            res.wf(),
            res@.trades == Seq::<Trade>::empty(),
            res@.equity_curve.len() == 1,
            res@.equity_curve[0].1 == initial_balance,
            res@.initial_balance == initial_balance,
    {
        Metrics::starting_at(initial_balance, now_millis())
    }

    /// The balance the record opened with.
    pub fn initial_balance(&self) -> (res: Decimal)
        ensures
            res == self@.initial_balance,
    {
        self.initial_balance
    }

    /// The last balance on the curve.
    pub fn final_balance(&self) -> (res: Decimal)
        requires
            self.wf(),
        ensures
            res == self@.equity_curve.last().1,
    {
        self.final_balance
    }

    /// The highest balance on the curve.
    pub fn max_equity(&self) -> (res: Decimal)
        requires
            self.wf(),
        ensures
            res@ == peak(self@.equity_curve),
    {
        self.max_equity
    }

    /// Number of points on the equity curve.
    pub fn equity_points(&self) -> (res: usize)
        ensures
            res == self@.equity_curve.len(),
    {
        self.equity_curve.len()
    }

    /// Point `i` of the equity curve: a time and the balance at that time.
    pub fn equity_point(&self, i: usize) -> (res: (i64, Decimal))
        requires
            i < self@.equity_curve.len(),
        ensures
            res == self@.equity_curve[i as int],
    {
        self.equity_curve[i]
    }

    /// Closed trade `i`, in the order in which trades were closed.
    pub fn trade(&self, i: usize) -> (res: Trade)
        requires
            i < self@.trades.len(),
        ensures
            res == self@.trades[i as int],
    {
        self.completed_trades[i].clone()
    }

    /// Appends a closed trade.
    pub fn add_trade(&mut self, trade: Trade)
        requires
            old(self).wf(),
        ensures
            final(self).wf(),
            final(self)@.trades == old(self)@.trades.push(trade),
            final(self)@.equity_curve == old(self)@.equity_curve,
            final(self)@.initial_balance == old(self)@.initial_balance,
    {
        self.completed_trades.push(trade);
    }

    /// Appends the balance at `time` to the curve. The largest drawdown
    /// never falls by it.
    pub fn update_equity_curve(&mut self, time: i64, balance: Decimal)
        requires
            old(self).wf(),
        ensures
            final(self).wf(),
            final(self)@.trades == old(self)@.trades,
            final(self)@.equity_curve == old(self)@.equity_curve.push((time, balance)),
            final(self)@.initial_balance == old(self)@.initial_balance,
            max_drawdown_of(final(self)@.equity_curve) >= max_drawdown_of(old(self)@.equity_curve),
    {
        let ghost before = self.equity_curve@;
        self.final_balance = balance;
        if balance.gt(self.max_equity) {
            self.max_equity = balance;
        }
        let drawdown_percent = if self.max_equity.is_positive() {
            self.max_equity.minus(balance).over(self.max_equity).times(Decimal::from_int(100))
        } else {
            Decimal::zero()
        };
        self.equity_curve.push((time, balance));
        self.drawdowns.push((time, drawdown_percent));
        proof {
            let after = self.equity_curve@;
            assert(after.drop_last() == before);
            assert(after.take(after.len() as int) == after);
            assert forall|i: int| 0 <= i < self.drawdowns@.len() implies (#[trigger] self.drawdowns@[i]).1@
                == drawdown_at(after, i + 1) by {
                if i < before.len() - 1 {
                    assert(before == after.take(before.len() as int));
                    lemma_drawdown_prefix(after, before.len() as int, i + 1);
                }
            }
            lemma_max_drawdown_grows(before, (time, balance));
        }
    }

    /// The relative change from each balance to the next.
    fn step_returns(&self) -> (res: Vec<Decimal>)
        requires
            self.wf(),
        ensures
            res@ == returns_of(self@.equity_curve),
    {
        let mut rates: Vec<Decimal> = Vec::new();
        let mut i: usize = 1;
        while i < self.equity_curve.len()
            invariant
                1 <= i <= self.equity_curve@.len(),
                rates@ == returns_of(self.equity_curve@.take(i as int)),
            decreases self.equity_curve@.len() - i,
        {
            let prev_equity = self.equity_curve[i - 1].1;
            let curr_equity = self.equity_curve[i].1;
            proof {
                assert(self.equity_curve@.take(i + 1).drop_last() == self.equity_curve@.take(i as int));
            }
            if prev_equity.is_positive() {
                rates.push(curr_equity.minus(prev_equity).over(prev_equity));
            }
            i = i + 1;
        }
        assert(self.equity_curve@.take(self.equity_curve@.len() as int) == self.equity_curve@);
        rates
    }

    /// The Sharpe ratio of the curve's returns for a yearly risk-free rate.
    pub fn sharpe_ratio(&self, risk_free_rate: Decimal) -> (res: Decimal)
        requires
            self.wf(),
        ensures
            res@ == sharpe_of(self@.equity_curve, risk_free_rate@),
    {
        if self.equity_curve.len() < 2 {
            return Decimal::zero();
        }
        let rates = self.step_returns();
        if rates.len() == 0 {
            return Decimal::zero();
        }
        let avg_return = mean_of(&rates);
        let std_dev = variance_of(&rates).sqrt();
        if std_dev.raw == 0 {
            return Decimal::zero();
        }
        let periods = Decimal::from_int(TRADE_PERIODS);
        let root = periods.sqrt();
        avg_return.minus(risk_free_rate.over(periods)).times(root).over(std_dev.times(root))
    }

    /// The largest drawdown on the curve, in percent of the peak before it.
    pub fn max_drawdown(&self) -> (res: Decimal)
        requires
            self.wf(),
        ensures
            res@ == max_drawdown_of(self@.equity_curve),
    {
        let mut best = Decimal::zero();
        let mut i: usize = 0;
        while i < self.drawdowns.len()
            invariant
                self.wf(),
                i <= self.drawdowns@.len(),
                best@ == max_drawdown_of(self.equity_curve@.take(i + 1)),
            decreases self.drawdowns@.len() - i,
        {
            let dd = self.drawdowns[i].1;
            proof {
                let longer = self.equity_curve@.take(i + 2);
                assert(longer.drop_last() == self.equity_curve@.take(i + 1));
                lemma_drawdown_prefix(self.equity_curve@, i + 2, i + 1);
            }
            if dd.gt(best) {
                best = dd;
            }
            i = i + 1;
        }
        assert(self.equity_curve@.take(self.equity_curve@.len() as int) == self.equity_curve@);
        best
    }

    /// Number of closed trades.
    pub fn total_trades(&self) -> (res: usize)
        ensures
            res == self@.trades.len(),
    {
        self.completed_trades.len()
    }

    /// The profits and the losses of the closed trades, each in order.
    fn partition(&self) -> (res: (Vec<Decimal>, Vec<Decimal>))
        ensures
            res.0@ == profits_of(self@.trades),
            res.1@ == losses_of(self@.trades),
    {
        let mut profits: Vec<Decimal> = Vec::new();
        let mut losses: Vec<Decimal> = Vec::new();
        let mut i: usize = 0;
        while i < self.completed_trades.len()
            invariant
                i <= self.completed_trades@.len(),
                profits@ == profits_of(self.completed_trades@.take(i as int)),
                losses@ == losses_of(self.completed_trades@.take(i as int)),
            decreases self.completed_trades@.len() - i,
        {
            let pl = self.completed_trades[i].profit_loss;
            proof {
                assert(self.completed_trades@.take(i + 1).drop_last() == self.completed_trades@.take(i as int));
            }
            if pl.is_positive() {
                profits.push(pl);
            } else if pl.lt(Decimal::zero()) {
                losses.push(Decimal { raw: narrow(-(pl.raw as i128)) });
            }
            i = i + 1;
        }
        assert(self.completed_trades@.take(self.completed_trades@.len() as int) == self.completed_trades@);
        (profits, losses)
    }

    /// Number of closed trades that made a profit.
    pub fn profitable_trades(&self) -> (res: usize)
        ensures
            res == profits_of(self@.trades).len(),
    {
        let (profits, _) = self.partition();
        profits.len()
    }

    /// Share of the closed trades that made a profit, in percent; zero
    /// without trades.
    pub fn win_rate(&self) -> (res: Decimal)
        ensures
            res@ == win_rate_of(self@.trades),
            0 <= res@ <= 100 * SCALE,
    {
        let total_trades = self.total_trades();
        if total_trades == 0 {
            Decimal::zero()
        } else {
            let wins = self.profitable_trades();
            proof {
                lemma_partition_len(self@.trades);
                lemma_share_bound(wins as int, total_trades as int);
            }
            let scaled: i128 = (wins as i128) * 100 * (SCALE as i128);
            Decimal { raw: narrow(wide_div(scaled, total_trades as i128)) }
        }
    }

    /// Sum of the profits and losses of the closed trades, clamped.
    pub fn total_profit_loss(&self) -> (res: Decimal)
        ensures
            res@ == clamp(total(results_of(self@.trades))),
    {
        let mut results: Vec<Decimal> = Vec::new();
        let mut i: usize = 0;
        while i < self.completed_trades.len()
            invariant
                i <= self.completed_trades@.len(),
                results@ == results_of(self.completed_trades@.take(i as int)),
            decreases self.completed_trades@.len() - i,
        {
            results.push(self.completed_trades[i].profit_loss);
            assert(results@ =~= results_of(self.completed_trades@.take(i + 1)));
            i = i + 1;
        }
        assert(self.completed_trades@.take(self.completed_trades@.len() as int) == self.completed_trades@);
        Decimal { raw: narrow(sum_raw(&results)) }
    }

    /// Gain of the last balance over the opening one, in percent.
    pub fn total_return_percent(&self) -> (res: Decimal)
        requires
            self.wf(),
        ensures
            res@ == return_percent_of(self@.initial_balance@, self@.equity_curve.last().1@),
    {
        self.final_balance.over(self.initial_balance).minus(Decimal::from_int(1)).times(Decimal::from_int(100))
    }

    /// Mean profit of the trades with a profit above zero and mean loss of
    /// the trades with a loss, each zero where there is no such trade. A
    /// trade that broke even counts in neither.
    pub fn profit_loss_averages(&self) -> (res: (Decimal, Decimal))
        ensures
            res.0@ == mean(profits_of(self@.trades)),
            res.1@ == mean(losses_of(self@.trades)),
    {
        let (profits, losses) = self.partition();
        (mean_of(&profits), mean_of(&losses))
    }

    /// Mean profit over mean loss; zero where the mean loss is not above
    /// zero.
    pub fn risk_reward_ratio(&self) -> (res: Decimal)
        ensures
            res@ == risk_reward_of(self@.trades),
    {
        let (avg_profit, avg_loss) = self.profit_loss_averages();
        if avg_loss.is_positive() {
            avg_profit.over(avg_loss)
        } else {
            Decimal::zero()
        }
    }

    /// Every figure at once, computed afresh; the Sharpe ratio is taken at a
    /// risk-free rate of zero.
    pub fn get_performance_metrics(&self) -> (res: PerformanceMetrics)
        requires
            self.wf(),
        ensures
            res == snapshot_of(self@),
    {
        let (avg_profit, avg_loss) = self.profit_loss_averages();
        PerformanceMetrics {
            initial_balance: self.initial_balance,
            final_balance: self.final_balance,
            total_trades: self.total_trades(),
            profitable_trades: self.profitable_trades(),
            win_rate: self.win_rate(),
            total_profit_loss: self.total_profit_loss(),
            total_return_percent: self.total_return_percent(),
            avg_profit,
            avg_loss,
            risk_reward_ratio: self.risk_reward_ratio(),
            sharpe_ratio: self.sharpe_ratio(Decimal::zero()),
            max_drawdown: self.max_drawdown(),
        }
    }
}

/// A share of `part` in `whole`, in percent, lies between 0 and 100.
pub proof fn lemma_share_bound(part: int, whole: int)
    requires
        0 <= part <= whole,
        whole > 0,
    ensures
        0 <= part * 100 * SCALE <= whole * 100 * SCALE,
        0 <= trunc_div(part * 100 * SCALE, whole) <= 100 * SCALE,
{
    assert(0 <= part * 100 * SCALE <= whole * 100 * SCALE) by (nonlinear_arith)
        requires
            0 <= part <= whole,
    ;
    let n = part * 100 * SCALE;
    assert(0 <= n / whole <= 100 * SCALE) by (nonlinear_arith)
        requires
            0 <= n <= whole * 100 * SCALE,
            whole > 0,
    ;
}

} // verus!
