//! Feeds candles to the history, the history to the strategies, and their
//! signals to the consumers.

use crate::data_structures::history::{inserted, inserted_all, requesting, History, HistoryView};
use crate::data_structures::kline::Kline;
use crate::data_structures::signal::Signal;
use crate::engines::trading::{after_signal, TradingView};
use crate::indicators::ema::EMAParams;
use crate::indicators::IndicatorIdentifier;
use crate::signal_processors::backtest::Backtest;
use crate::signal_processors::logging::Logging;
use crate::signal_processors::SignalProcessor;
use crate::strategies::crossover::PriceCrossOverStrategy;
use crate::strategies::factory::AnyStrategy;
use crate::strategies::Strategy;
use vstd::prelude::*;
use vstd::string::*;

verus! {

/// How a run ends. In either mode the past candles only fill the history
/// and the strategies are evaluated on the live candles.
#[derive(Debug, Clone, Copy, PartialEq, Eq, Structural)]
pub enum ProcessorMode {
    /// Once the live stream has ended, the summary of the simulated account
    /// is printed.
    Backtest,
    /// Once the live stream has ended, the run is over.
    Live,
}

/// Whether the strategies are evaluated after a candle went in.
#[derive(Debug, Clone, Copy, PartialEq, Eq, Structural)]
pub enum StrategyOption {
    Apply,
    Skip,
}

/// What is left to do once the live stream has ended.
#[derive(Debug, Clone, Copy, PartialEq, Eq, Structural)]
pub enum NextStep {
    /// Print the summary of the first simulated account, if there is one.
    Summarize,
    /// Nothing.
    Finish,
}

/// Any of the consumers this crate provides.
pub enum AnySignalProcessor {
    Logging(Logging),
    Backtest(Backtest),
}

/// The state of a consumer.
pub enum ConsumerView {
    Logging(Option<Signal>),
    Backtest(TradingView),
}

impl View for AnySignalProcessor {
    type V = ConsumerView;

    open spec fn view(&self) -> ConsumerView {
        match self {
            AnySignalProcessor::Logging(p) => ConsumerView::Logging(p@),
            AnySignalProcessor::Backtest(p) => ConsumerView::Backtest(p@),
        }
    }
}

impl SignalProcessor for AnySignalProcessor {
    open spec fn ready(&self) -> bool {
        match self {
            AnySignalProcessor::Logging(p) => p.ready(),
            AnySignalProcessor::Backtest(p) => p.ready(),
        }
    }

    open spec fn next(state: ConsumerView, signal: Signal) -> ConsumerView {
        match state {
            ConsumerView::Logging(last) => ConsumerView::Logging(Some(signal)),
            ConsumerView::Backtest(account) => ConsumerView::Backtest(after_signal(account, signal)),
        }
    }

    fn process_signal(&mut self, signal: &Signal) {
        match self {
            AnySignalProcessor::Logging(p) => p.process_signal(signal),
            AnySignalProcessor::Backtest(p) => p.process_signal(signal),
        }
    }
}

/// The signals of all strategies on a history, strategy by strategy.
pub open spec fn emitted(strategies: Seq<AnyStrategy>, history: HistoryView) -> Seq<Signal>
    decreases strategies.len(),
{
    if strategies.len() == 0 {
        Seq::empty()
    } else {
        emitted(strategies.drop_last(), history) + strategies.last().signals(history)
    }
}

/// A consumer's state after it took each of `signals` in turn.
pub open spec fn fed(state: ConsumerView, signals: Seq<Signal>) -> ConsumerView
    decreases signals.len(),
{
    if signals.len() == 0 {
        state
    } else {
        AnySignalProcessor::next(fed(state, signals.drop_last()), signals.last())
    }
}

/// The states of consumers after each took each of `signals` in turn.
pub open spec fn all_fed(consumers: Seq<ConsumerView>, signals: Seq<Signal>) -> Seq<ConsumerView> {
    consumers.map_values(|c: ConsumerView| fed(c, signals))
}

/// The indicators that the strategies read, strategy by strategy.
pub open spec fn wanted(strategies: Seq<AnyStrategy>) -> Seq<IndicatorIdentifier>
    decreases strategies.len(),
{
    if strategies.len() == 0 {
        Seq::empty()
    } else {
        wanted(strategies.drop_last()) + strategies.last().indicators()
    }
}

/// What a processor holds besides its strategies: the history and the
/// states of its consumers, in the order of their registration.
pub struct ProcessorView {
    pub history: HistoryView,
    pub consumers: Seq<ConsumerView>,
}

/// The processor's state after one candle: the history takes the candle,
/// and where the strategies apply every consumer takes every signal that
/// the strategies then give.
pub open spec fn stepped(
    strategies: Seq<AnyStrategy>,
    state: ProcessorView,
    kline: Kline,
    option: StrategyOption,
) -> ProcessorView {
    let history = inserted(state.history, kline);
    ProcessorView {
        history,
        consumers: match option {
            StrategyOption::Apply => all_fed(state.consumers, emitted(strategies, history)),
            StrategyOption::Skip => state.consumers,
        },
    }
}

/// The processor's state after each of `klines` in turn.
pub open spec fn stepped_all(
    strategies: Seq<AnyStrategy>,
    state: ProcessorView,
    klines: Seq<Kline>,
    option: StrategyOption,
) -> ProcessorView
    decreases klines.len(),
{
    if klines.len() == 0 {
        state
    } else {
        stepped(strategies, stepped_all(strategies, state, klines.drop_last(), option), klines.last(), option)
    }
}

/// The candles among the items of a live stream, in their order: a failed
/// item is passed over.
pub open spec fn delivered(items: Seq<Option<Kline>>) -> Seq<Kline>
    decreases items.len(),
{
    if items.len() == 0 {
        Seq::empty()
    } else {
        match items.last() {
            Some(kline) => delivered(items.drop_last()).push(kline),
            None => delivered(items.drop_last()),
        }
    }
}

/// The processor's state after the past candles, if they could be had,
/// went in with the strategies skipped.
pub open spec fn backfilled(strategies: Seq<AnyStrategy>, state: ProcessorView, past: Option<Seq<Kline>>) -> ProcessorView {
    match past {
        Some(klines) => stepped_all(strategies, state, klines, StrategyOption::Skip),
        None => state,
    }
}

/// The processor's state after a run: first every past candle goes into the
/// history with the strategies skipped, then every candle of the live
/// stream goes in, each followed by the strategies and their signals.
/// Where the past candles could not be had, the live candles meet the
/// history as it was.
pub open spec fn ran(
    strategies: Seq<AnyStrategy>,
    state: ProcessorView,
    past: Option<Seq<Kline>>,
    live: Seq<Option<Kline>>,
) -> ProcessorView {
    stepped_all(strategies, backfilled(strategies, state, past), delivered(live), StrategyOption::Apply)
}

/// What is left to do after the live stream of a run in `mode`.
pub open spec fn after_run(mode: ProcessorMode) -> NextStep {
    match mode {
        ProcessorMode::Backtest => NextStep::Summarize,
        ProcessorMode::Live => NextStep::Finish,
    }
}

/// Taking one more signal after others is taking them all in turn.
pub proof fn lemma_fed_push(state: ConsumerView, signals: Seq<Signal>, signal: Signal)
    ensures
        fed(state, signals.push(signal)) == AnySignalProcessor::next(fed(state, signals), signal),
{
    assert(signals.push(signal).drop_last() == signals);
}

/// With the strategies skipped, taking candles is inserting them into the
/// history: no consumer hears of it.
pub proof fn lemma_backfill_is_silent(strategies: Seq<AnyStrategy>, state: ProcessorView, klines: Seq<Kline>)
    ensures
        stepped_all(strategies, state, klines, StrategyOption::Skip) == (ProcessorView {
            history: inserted_all(state.history, klines),
            consumers: state.consumers,
        }),
    decreases klines.len(),
{
    if klines.len() > 0 {
        lemma_backfill_is_silent(strategies, state, klines.drop_last());
    }
}

/// Owns the history, the strategies and the consumers of one run.
pub struct Processor {
    history: History,
    strategies: Vec<AnyStrategy>,
    signal_processors: Vec<AnySignalProcessor>,
}

impl View for Processor {
    type V = ProcessorView;

    closed spec fn view(&self) -> ProcessorView {
        ProcessorView { history: self.history@, consumers: self.signal_processors@.map_values(|p: AnySignalProcessor| p@) }
    }
}

impl Processor {
    /// The strategies, in the order in which they are evaluated.
    pub closed spec fn strategies(&self) -> Seq<AnyStrategy> {
        self.strategies@
    }

    /// The invariant of the processor: a well-formed history and consumers
    /// that take signals.
    pub closed spec fn wf(&self) -> bool {
        &&& self.history.wf()
        &&& forall|k: int| 0 <= k < self.signal_processors@.len() ==> (#[trigger] self.signal_processors@[k]).ready()
    }

    /// Whether every consumer takes signals.
    pub open spec fn all_ready(consumers: Seq<AnySignalProcessor>) -> bool {
        forall|k: int| 0 <= k < consumers.len() ==> (#[trigger] consumers[k]).ready()
    }

    /// A processor with the given consumers, an empty history, and one
    /// strategy, `EMAPriceCrossOver`, that compares the price with the
    /// moving average over twenty candles; the indicators of the strategies
    /// are requested from the history.
    pub fn new(signal_processors: Vec<AnySignalProcessor>) -> (res: Self)
        requires
            Processor::all_ready(signal_processors@),
        ensures
            res.wf(),
            res.strategies().len() == 1,
            res.strategies()[0] matches AnyStrategy::PriceCrossOver(s) && s.name_text()@ == "EMAPriceCrossOver"@
                && s.indicator() == IndicatorIdentifier::EMA(EMAParams { period: 20 }),
            res@.history == requesting(HistoryView::empty(), wanted(res.strategies())),
            res@.consumers == signal_processors@.map_values(|p: AnySignalProcessor| p@),
    {
        let mut strategies: Vec<AnyStrategy> = Vec::new();
        let mut history = History::new();
        let ema_20 = IndicatorIdentifier::EMA(EMAParams { period: 20 });
        let price_ema_crossover = PriceCrossOverStrategy::new(String::from_str("EMAPriceCrossOver"), ema_20);
        strategies.push(AnyStrategy::PriceCrossOver(price_ema_crossover));
        let indicators = Processor::wanted_indicators(&strategies);
        history.request_calculators(indicators.as_slice());
        Processor { history, strategies, signal_processors }
    }

    /// The history.
    pub fn history(&self) -> (res: &History)
        ensures
            res@ == self@.history,
            self.wf() ==> res.wf(),
    {
        &self.history
    }

    /// Number of consumers.
    pub fn consumer_count(&self) -> (res: usize)
        ensures
            res == self@.consumers.len(),
    {
        self.signal_processors.len()
    }

    /// Consumer `k`, in the order of registration.
    pub fn consumer(&self, k: usize) -> (res: &AnySignalProcessor)
        requires
            k < self@.consumers.len(),
        ensures
            res@ == self@.consumers[k as int],
            self.wf() ==> res.ready(),
    {
        &self.signal_processors[k]
    }

    /// The indicators that the strategies read, strategy by strategy.
    pub fn wanted_indicators(strategies: &Vec<AnyStrategy>) -> (res: Vec<IndicatorIdentifier>)
        ensures
            res@ == wanted(strategies@),
    {
        let mut out: Vec<IndicatorIdentifier> = Vec::new();
        let mut i: usize = 0;
        while i < strategies.len()
            invariant
                i <= strategies@.len(),
                out@ == wanted(strategies@.take(i as int)),
            decreases strategies@.len() - i,
        {
            let mut more = strategies[i].request_indicators();
            proof {
                assert(strategies@.take(i + 1).drop_last() == strategies@.take(i as int));
            }
            out.append(&mut more);
            i = i + 1;
        }
        assert(strategies@.take(strategies@.len() as int) == strategies@);
        out
    }

    /// Hands `signal` to every consumer in the order of registration.
    fn broadcast(&mut self, signal: &Signal)
        requires
            old(self).wf(),
        ensures
            final(self).wf(),
            final(self).strategies() == old(self).strategies(),
            final(self)@.history == old(self)@.history,
            final(self)@.consumers == old(self)@.consumers.map_values(
                |c: ConsumerView| AnySignalProcessor::next(c, *signal),
            ),
    {
        let ghost before = self.signal_processors@;
        let mut k: usize = 0;
        while k < self.signal_processors.len()
            invariant
                k <= before.len(),
                self.signal_processors@.len() == before.len(),
                self.history == old(self).history,
                self.strategies == old(self).strategies,
                before == old(self).signal_processors@,
                forall|i: int| 0 <= i < before.len() ==> (#[trigger] self.signal_processors@[i]).ready(),
                forall|i: int|
                    0 <= i < k ==> (#[trigger] self.signal_processors@[i])@ == AnySignalProcessor::next(
                        before[i]@,
                        *signal,
                    ),
                forall|i: int| k <= i < before.len() ==> self.signal_processors@[i] == before[i],
            decreases before.len() - k,
        {
            self.signal_processors[k].process_signal(signal);
            k = k + 1;
        }
        assert(self@.consumers =~= old(self)@.consumers.map_values(
            |c: ConsumerView| AnySignalProcessor::next(c, *signal),
        ));
    }

    /// Evaluates every strategy on the history, in order, and hands each
    /// signal to every consumer before the next is looked at.
    pub fn apply_strategies(&mut self)
        requires
            old(self).wf(),
        ensures
            final(self).wf(),
            final(self).strategies() == old(self).strategies(),
            final(self)@.history == old(self)@.history,
            final(self)@.consumers == all_fed(old(self)@.consumers, emitted(old(self).strategies(), old(self)@.history)),
    {
        let ghost start = self@.consumers;
        let ghost history = self@.history;
        let ghost strategies = self.strategies@;
        let mut i: usize = 0;
        assert(self@.consumers =~= all_fed(start, emitted(strategies.take(0), history)));
        while i < self.strategies.len()
            invariant
                self.wf(),
                i <= strategies.len(),
                self.strategies@ == strategies,
                self@.history == history,
                self@.consumers == all_fed(start, emitted(strategies.take(i as int), history)),
            decreases strategies.len() - i,
        {
            let signals = self.strategies[i].generate_signals(&self.history);
            let ghost base = emitted(strategies.take(i as int), history);
            proof {
                assert(strategies.take(i + 1).drop_last() == strategies.take(i as int));
                assert(base + signals@.take(0) =~= base);
            }
            let mut j: usize = 0;
            while j < signals.len()
                invariant
                    self.wf(),
                    j <= signals@.len(),
                    self.strategies@ == strategies,
                    self@.history == history,
                    self@.consumers == all_fed(start, base + signals@.take(j as int)),
                decreases signals@.len() - j,
            {
                let ghost so_far = base + signals@.take(j as int);
                self.broadcast(&signals[j]);
                proof {
                    assert(base + signals@.take(j + 1) =~= so_far.push(signals@[j as int]));
                    assert forall|k: int| 0 <= k < start.len() implies fed(start[k], so_far.push(signals@[j as int]))
                        == AnySignalProcessor::next(fed(start[k], so_far), signals@[j as int]) by {
                        lemma_fed_push(start[k], so_far, signals@[j as int]);
                    }
                    assert(self@.consumers =~= all_fed(start, base + signals@.take(j + 1)));
                }
                j = j + 1;
            }
            proof {
                assert(signals@.take(signals@.len() as int) == signals@);
            }
            i = i + 1;
        }
        assert(strategies.take(strategies.len() as int) == strategies);
    }

    /// Takes one candle: inserts it into the history and, where the
    /// strategies apply, evaluates them and hands out their signals.
    pub fn consume_kline(&mut self, kline: Kline, option: StrategyOption)
        requires
            old(self).wf(),
        ensures
            final(self).wf(),
            final(self).strategies() == old(self).strategies(),
            final(self)@ == stepped(old(self).strategies(), old(self)@, kline, option),
    {
        self.history.insert(kline);
        match option {
            StrategyOption::Apply => {
                self.apply_strategies();
            },
            StrategyOption::Skip => {
                assert(self@.consumers =~= old(self)@.consumers);
            },
        }
    }

    /// Takes candles one after the other.
    pub fn consume_klines(&mut self, klines: Vec<Kline>, option: StrategyOption)
        requires
            old(self).wf(),
        ensures
            final(self).wf(),
            final(self).strategies() == old(self).strategies(),
            final(self)@ == stepped_all(old(self).strategies(), old(self)@, klines@, option),
    {
        let mut i: usize = 0;
        while i < klines.len()
            invariant
                self.wf(),
                i <= klines@.len(),
                self.strategies() == old(self).strategies(),
                self@ == stepped_all(old(self).strategies(), old(self)@, klines@.take(i as int), option),
            decreases klines@.len() - i,
        {
            proof {
                assert(klines@.take(i + 1).drop_last() == klines@.take(i as int));
            }
            self.consume_kline(klines[i].clone(), option);
            i = i + 1;
        }
        assert(klines@.take(klines@.len() as int) == klines@);
    }

    /// Takes the past candles, if they could be had: each goes into the
    /// history, no strategy is evaluated, and no consumer hears of it.
    pub fn backfill(&mut self, past: Option<Vec<Kline>>)
        requires
            old(self).wf(),
        ensures
            final(self).wf(),
            final(self).strategies() == old(self).strategies(),
            final(self)@ == backfilled(
                old(self).strategies(),
                old(self)@,
                match past {
                    Some(klines) => Some(klines@),
                    None => None,
                },
            ),
            final(self)@.consumers == old(self)@.consumers,
            final(self)@.history == match past {
                Some(klines) => inserted_all(old(self)@.history, klines@),
                None => old(self)@.history,
            },
    {
        match past {
            Some(klines) => {
                proof {
                    lemma_backfill_is_silent(self.strategies(), self@, klines@);
                }
                self.consume_klines(klines, StrategyOption::Skip);
            },
            None => {},
        }
    }

    /// Takes one item of the live stream: a candle goes into the history
    /// and the strategies are evaluated on it; a failed item changes nothing.
    pub fn consume_live(&mut self, item: Option<Kline>)
        requires
            old(self).wf(),
        ensures
            final(self).wf(),
            final(self).strategies() == old(self).strategies(),
            final(self)@ == match item {
                Some(kline) => stepped(old(self).strategies(), old(self)@, kline, StrategyOption::Apply),
                None => old(self)@,
            },
    {
        match item {
            Some(kline) => {
                self.consume_kline(kline, StrategyOption::Apply);
            },
            None => {},
        }
    }

    /// What is left to do once the live stream of a run in `mode` has ended.
    pub fn after_live(mode: ProcessorMode) -> (res: NextStep)
        ensures
            res == after_run(mode),
    {
        match mode {
            ProcessorMode::Backtest => NextStep::Summarize,
            ProcessorMode::Live => NextStep::Finish,
        }
    }

    /// Runs over the past candles, if they could be had, and the items of
    /// the live stream: the past candles fill the history without any
    /// strategy, then each live candle goes in and is followed by the
    /// strategies and their signals, and a failed live item is passed over.
    /// The run ends with the live items and tells what is left to do.
    pub fn start(&mut self, mode: ProcessorMode, past: Option<Vec<Kline>>, live: Vec<Option<Kline>>) -> (res:
        NextStep)
        requires
            old(self).wf(),
        ensures
            final(self).wf(),
            final(self).strategies() == old(self).strategies(),
            final(self)@ == ran(
                old(self).strategies(),
                old(self)@,
                match past {
                    Some(klines) => Some(klines@),
                    None => None,
                },
                live@,
            ),
            res == after_run(mode),
    {
        self.backfill(past);
        let ghost filled = self@;
        let mut i: usize = 0;
        while i < live.len()
            invariant
                self.wf(),
                i <= live@.len(),
                self.strategies() == old(self).strategies(),
                self@ == stepped_all(
                    old(self).strategies(),
                    filled,
                    delivered(live@.take(i as int)),
                    StrategyOption::Apply,
                ),
            decreases live@.len() - i,
        {
            proof {
                assert(live@.take(i + 1).drop_last() == live@.take(i as int));
                let so_far = delivered(live@.take(i as int));
                match live@[i as int] {
                    Some(kline) => {
                        assert(so_far.push(kline).drop_last() == so_far);
                    },
                    None => {},
                }
            }
            let item = match &live[i] {
                Some(kline) => Some(kline.clone()),
                None => None,
            };
            self.consume_live(item);
            i = i + 1;
        }
        assert(live@.take(live@.len() as int) == live@);
        Processor::after_live(mode)
    }

    /// The place of the first consumer that is a simulated account.
    pub open spec fn first_backtest(consumers: Seq<ConsumerView>) -> Option<int>
        decreases consumers.len(),
    {
        if consumers.len() == 0 {
            None
        } else {
            match Processor::first_backtest(consumers.drop_last()) {
                Some(k) => Some(k),
                None => if consumers.last() is Backtest {
                    Some(consumers.len() - 1)
                } else {
                    None
                },
            }
        }
    }

    /// The first consumer that is a simulated account, if there is one.
    pub fn backtest(&self) -> (res: Option<&Backtest>)
        ensures
            match res {
                Some(backtest) => Processor::first_backtest(self@.consumers) matches Some(k) && self@.consumers[k]
                    == ConsumerView::Backtest(backtest@),
                None => Processor::first_backtest(self@.consumers) is None,
            },
            self.wf() && res is Some ==> res->0.wf(),
    {
        let mut k: usize = 0;
        while k < self.signal_processors.len()
            invariant
                k <= self.signal_processors@.len(),
                Processor::first_backtest(self@.consumers.take(k as int)) is None,
            decreases self.signal_processors@.len() - k,
        {
            proof {
                assert(self@.consumers.take(k + 1).drop_last() == self@.consumers.take(k as int));
                lemma_first_backtest_stays(self@.consumers, k + 1);
            }
            match &self.signal_processors[k] {
                AnySignalProcessor::Backtest(backtest) => {
                    return Some(backtest);
                },
                AnySignalProcessor::Logging(_) => {},
            }
            k = k + 1;
        }
        assert(self@.consumers.take(self@.consumers.len() as int) == self@.consumers);
        None
    }
}

/// A simulated account found among the first `n` consumers is the first of
/// all.
pub proof fn lemma_first_backtest_stays(consumers: Seq<ConsumerView>, n: int)
    requires
        0 <= n <= consumers.len(),
    ensures
        Processor::first_backtest(consumers.take(n)) is Some ==> Processor::first_backtest(consumers)
            == Processor::first_backtest(consumers.take(n)),
    decreases consumers.len() - n,
{
    if n < consumers.len() {
        assert(consumers.take(n + 1).drop_last() == consumers.take(n));
        lemma_first_backtest_stays(consumers, n + 1);
    } else {
        assert(consumers.take(n) == consumers);
    }
}

} // verus!
