//! The candle history and the indicator values recorded along it.

use crate::data_structures::kline::{candle_times, Kline};
use crate::data_structures::timeline::{
    ascending, lemma_rank_at_end, lemma_upsert_time, lemma_upsert_time_members, lower_bound, present, rank, tail,
    upsert, upsert_time, within,
};
use crate::decimal::Decimal;
use crate::indicators::factory::{made_for, Calculator, Factory};
use crate::indicators::{indicator_values, Indicator, IndicatorIdentifier};
use vstd::prelude::*;

verus! {

/// The candles after storing `kline`: it replaces the candle of the same
/// time, or is inserted at its place in the order of time.
pub open spec fn put_candle(candles: Seq<Kline>, kline: Kline) -> Seq<Kline> {
    upsert(candle_times(candles), candles, kline.time, kline)
}

/// The candles after storing each of `more` in turn.
pub open spec fn put_all(candles: Seq<Kline>, more: Seq<Kline>) -> Seq<Kline>
    decreases more.len(),
{
    if more.len() == 0 {
        candles
    } else {
        put_candle(put_all(candles, more.drop_last()), more.last())
    }
}

/// The identifiers after one more is requested: unchanged where it is known.
pub open spec fn register(ids: Seq<IndicatorIdentifier>, id: IndicatorIdentifier) -> Seq<IndicatorIdentifier> {
    if ids.contains(id) {
        ids
    } else {
        ids.push(id)
    }
}

/// The identifiers after each of `more` is requested in turn.
pub open spec fn register_all(ids: Seq<IndicatorIdentifier>, more: Seq<IndicatorIdentifier>) -> Seq<
    IndicatorIdentifier,
>
    decreases more.len(),
{
    if more.len() == 0 {
        ids
    } else {
        register(register_all(ids, more.drop_last()), more.last())
    }
}

/// The contents of recorded value vectors.
pub open spec fn rows(values: Seq<Vec<Decimal>>) -> Seq<Seq<Decimal>> {
    values.map_values(|v: Vec<Decimal>| v@)
}

/// Storing a candle stores its timestamp.
pub proof fn lemma_put_candle_times(candles: Seq<Kline>, kline: Kline)
    ensures
        candle_times(put_candle(candles, kline)) == upsert_time(candle_times(candles), kline.time),
{
    crate::data_structures::timeline::lemma_rank_bounds(candle_times(candles), kline.time);
    assert(candle_times(put_candle(candles, kline)) =~= upsert_time(candle_times(candles), kline.time));
}

/// What a history holds: the candles in chronological order, the requested
/// identifiers in the order of their first request, and for every
/// identifier the times of its readings, in chronological order, with the
/// value vector recorded at each. An identifier that was never requested has
/// no readings.
pub struct HistoryView {
    pub candles: Seq<Kline>,
    pub requested: Seq<IndicatorIdentifier>,
    pub times: Map<IndicatorIdentifier, Seq<i64>>,
    pub values: Map<IndicatorIdentifier, Seq<Seq<Decimal>>>,
}

impl HistoryView {
    /// The history that holds nothing.
    pub open spec fn empty() -> HistoryView {
        HistoryView {
            candles: Seq::empty(),
            requested: Seq::empty(),
            times: Map::total(|id: IndicatorIdentifier| Seq::empty()),
            values: Map::total(|id: IndicatorIdentifier| Seq::empty()),
        }
    }
}

/// The history after inserting `kline`: the candle is stored at its
/// timestamp, and every requested indicator is evaluated on the candles as
/// they then are and its values are stored at the same timestamp.
pub open spec fn inserted(history: HistoryView, kline: Kline) -> HistoryView {
    let candles = put_candle(history.candles, kline);
    HistoryView {
        candles,
        requested: history.requested,
        times: Map::total(
            |id: IndicatorIdentifier|
                if history.requested.contains(id) {
                    upsert_time(history.times[id], kline.time)
                } else {
                    history.times[id]
                },
        ),
        values: Map::total(
            |id: IndicatorIdentifier|
                if history.requested.contains(id) {
                    upsert(history.times[id], history.values[id], kline.time, indicator_values(id, candles))
                } else {
                    history.values[id]
                },
        ),
    }
}

/// The history after inserting each of `klines` in turn.
pub open spec fn inserted_all(history: HistoryView, klines: Seq<Kline>) -> HistoryView
    decreases klines.len(),
{
    if klines.len() == 0 {
        history
    } else {
        inserted(inserted_all(history, klines.drop_last()), klines.last())
    }
}

/// The history after requesting each of `indicators`.
pub open spec fn requesting(history: HistoryView, indicators: Seq<IndicatorIdentifier>) -> HistoryView {
    HistoryView {
        candles: history.candles,
        requested: register_all(history.requested, indicators),
        times: history.times,
        values: history.values,
    }
}

/// What holds of the contents of every history: candles are in strictly
/// increasing order of time, no identifier is requested twice, readings are
/// in strictly increasing order of time with one value vector per time,
/// every reading stands at the time of a candle, and only requested
/// identifiers have readings.
pub open spec fn coherent(history: HistoryView) -> bool {
    &&& ascending(candle_times(history.candles))
    &&& history.requested.no_duplicates()
    &&& forall|id: IndicatorIdentifier| ascending(#[trigger] history.times[id])
    &&& forall|id: IndicatorIdentifier| (#[trigger] history.times[id]).len() == history.values[id].len()
    &&& forall|id: IndicatorIdentifier| within(#[trigger] history.times[id], candle_times(history.candles))
    &&& forall|id: IndicatorIdentifier|
        !history.requested.contains(id) ==> (#[trigger] history.times[id]).len() == 0
}

/// Requesting keeps the identifiers that were requested, adds those that are
/// asked for, and requests none twice.
pub proof fn lemma_register_all(ids: Seq<IndicatorIdentifier>, more: Seq<IndicatorIdentifier>)
    requires
        ids.no_duplicates(),
    ensures
        register_all(ids, more).no_duplicates(),
        forall|id: IndicatorIdentifier|
            #[trigger] register_all(ids, more).contains(id) <==> ids.contains(id) || more.contains(id),
    decreases more.len(),
{
    let all = register_all(ids, more);
    if more.len() > 0 {
        let shorter = more.drop_last();
        let last = more.last();
        lemma_register_all(ids, shorter);
        let before = register_all(ids, shorter);
        assert forall|id: IndicatorIdentifier| #[trigger] all.contains(id) <==> ids.contains(id) || more.contains(
            id,
        ) by {
            if more.contains(id) {
                let k = choose|k: int| 0 <= k < more.len() && more[k] == id;
                if k < shorter.len() {
                    assert(shorter[k] == id);
                    assert(shorter.contains(id));
                }
            }
            if shorter.contains(id) {
                let k = choose|k: int| 0 <= k < shorter.len() && shorter[k] == id;
                assert(more[k] == id);
            }
            assert(more[more.len() - 1] == last);
            if before.contains(last) {
                assert(all == before);
            } else {
                assert(all == before.push(last));
                if before.contains(id) {
                    let k = choose|k: int| 0 <= k < before.len() && before[k] == id;
                    assert(all[k] == id);
                }
                assert(all[before.len() as int] == last);
                if all.contains(id) {
                    let k = choose|k: int| 0 <= k < all.len() && all[k] == id;
                    if k < before.len() {
                        assert(before[k] == id);
                    }
                }
            }
        }
        if !before.contains(last) {
            assert forall|i: int, j: int| 0 <= i < all.len() && 0 <= j < all.len() && i != j implies all[i]
                != all[j] by {
                if i < before.len() && j < before.len() {
                    assert(before[i] != before[j]);
                } else if i < before.len() {
                    assert(before.contains(before[i]));
                } else if j < before.len() {
                    assert(before.contains(before[j]));
                }
            }
        }
    } else {
        assert forall|id: IndicatorIdentifier| !more.contains(id) by {}
    }
}

/// The history that holds nothing is coherent, and requesting indicators
/// from a coherent history that has no candles yet gives a coherent one.
pub proof fn lemma_requesting_coherent(history: HistoryView, indicators: Seq<IndicatorIdentifier>)
    requires
        coherent(history),
        history.candles.len() == 0,
    ensures
        coherent(HistoryView::empty()),
        coherent(requesting(history, indicators)),
        forall|id: IndicatorIdentifier|
            indicators.contains(id) ==> #[trigger] requesting(history, indicators).requested.contains(id),
{
    let empty = HistoryView::empty();
    assert(empty.requested.no_duplicates());
    assert forall|id: IndicatorIdentifier| !empty.requested.contains(id) by {}
    assert(coherent(empty));
    lemma_register_all(history.requested, indicators);
    let after = requesting(history, indicators);
    assert forall|id: IndicatorIdentifier| (#[trigger] after.times[id]).len() == 0 by {
        assert(within(history.times[id], candle_times(history.candles)));
        if history.times[id].len() > 0 {
            assert(candle_times(history.candles).contains(history.times[id][0]));
        }
    }
}

/// Inserting a candle that is later than all others appends it, and
/// appends to the readings of every requested indicator its values on the
/// candles as they then are.
pub proof fn lemma_insert_in_order(history: HistoryView, kline: Kline)
    requires
        coherent(history),
        history.candles.len() == 0 || history.candles.last().time < kline.time,
    ensures
        coherent(inserted(history, kline)),
        inserted(history, kline).candles == history.candles.push(kline),
        inserted(history, kline).requested == history.requested,
        forall|id: IndicatorIdentifier| #[trigger]
            history.requested.contains(id) ==> {
                &&& inserted(history, kline).times[id] == history.times[id].push(kline.time)
                &&& inserted(history, kline).values[id] == history.values[id].push(
                    indicator_values(id, history.candles.push(kline)),
                )
            },
        forall|id: IndicatorIdentifier|
            !history.requested.contains(id) ==> (#[trigger] inserted(history, kline).times[id]).len() == 0,
{
    let after = inserted(history, kline);
    let times = candle_times(history.candles);
    let t = kline.time;
    lemma_rank_at_end(times, t);
    assert(after.candles =~= history.candles.push(kline));
    assert(candle_times(after.candles) =~= times.push(t));
    lemma_upsert_time(times, t);
    assert forall|id: IndicatorIdentifier| #[trigger] history.requested.contains(id) implies {
        &&& after.times[id] == history.times[id].push(t)
        &&& after.values[id] == history.values[id].push(indicator_values(id, history.candles.push(kline)))
    } by {
        let own = history.times[id];
        assert(within(own, times));
        if own.len() > 0 {
            let k = choose|k: int| 0 <= k < times.len() && times[k] == own.last();
            if k < times.len() - 1 {
                assert(times[k] < times[times.len() - 1]);
            }
        }
        lemma_rank_at_end(own, t);
        assert(history.values[id].insert(own.len() as int, indicator_values(id, after.candles))
            =~= history.values[id].push(indicator_values(id, after.candles)));
    }
    assert forall|id: IndicatorIdentifier|
        ascending(#[trigger] after.times[id]) && after.times[id].len() == after.values[id].len() && within(
            after.times[id],
            candle_times(after.candles),
        ) && (!after.requested.contains(id) ==> after.times[id].len() == 0) by {
        let own = history.times[id];
        assert(within(own, times));
        if history.requested.contains(id) {
            lemma_upsert_time(own, t);
            assert(after.times[id] == upsert_time(own, t));
            assert(after.times[id] == own.push(t));
        }
        assert forall|i: int| 0 <= i < after.times[id].len() implies candle_times(after.candles).contains(
            #[trigger] after.times[id][i],
        ) by {
            if i < own.len() {
                let k = choose|k: int| 0 <= k < times.len() && times[k] == own[i];
                assert(candle_times(after.candles)[k] == own[i]);
            } else {
                assert(candle_times(after.candles)[times.len() as int] == t);
            }
        }
    }
}

/// Inserting candles in order of time into a history without candles gives
/// just these candles, and every requested indicator then has one reading
/// per candle, at the candle's time: its values on the candles up to and
/// including that one.
pub proof fn lemma_insert_run(start: HistoryView, klines: Seq<Kline>)
    requires
        coherent(start),
        start.candles.len() == 0,
        ascending(candle_times(klines)),
    ensures
        coherent(inserted_all(start, klines)),
        inserted_all(start, klines).candles == klines,
        inserted_all(start, klines).requested == start.requested,
        forall|id: IndicatorIdentifier| #[trigger]
            start.requested.contains(id) ==> {
                &&& inserted_all(start, klines).times[id] == candle_times(klines)
                &&& inserted_all(start, klines).values[id].len() == klines.len()
                &&& forall|i: int|
                    0 <= i < klines.len() ==> (#[trigger] inserted_all(start, klines).values[id][i])
                        == indicator_values(id, klines.take(i + 1))
            },
    decreases klines.len(),
{
    let end = inserted_all(start, klines);
    if klines.len() == 0 {
        assert(end.candles =~= klines);
        assert forall|id: IndicatorIdentifier| #[trigger] start.requested.contains(id) implies {
            &&& end.times[id] == candle_times(klines)
            &&& end.values[id].len() == klines.len()
        } by {
            assert(within(start.times[id], candle_times(start.candles)));
            if start.times[id].len() > 0 {
                assert(candle_times(start.candles).contains(start.times[id][0]));
            }
            assert(end.times[id] =~= candle_times(klines));
        }
    } else {
        let shorter = klines.drop_last();
        let last = klines.last();
        assert(candle_times(shorter) =~= candle_times(klines).drop_last());
        lemma_insert_run(start, shorter);
        let before = inserted_all(start, shorter);
        if shorter.len() > 0 {
            assert(candle_times(klines)[shorter.len() - 1] < candle_times(klines)[klines.len() - 1]);
        }
        lemma_insert_in_order(before, last);
        assert(shorter.push(last) =~= klines);
        assert forall|id: IndicatorIdentifier| #[trigger] start.requested.contains(id) implies {
            &&& end.times[id] == candle_times(klines)
            &&& end.values[id].len() == klines.len()
            &&& forall|i: int|
                0 <= i < klines.len() ==> (#[trigger] end.values[id][i]) == indicator_values(id, klines.take(i + 1))
        } by {
            assert(before.requested.contains(id));
            assert(end.times[id] =~= candle_times(klines));
            assert forall|i: int| 0 <= i < klines.len() implies (#[trigger] end.values[id][i]) == indicator_values(
                id,
                klines.take(i + 1),
            ) by {
                if i < shorter.len() {
                    assert(end.values[id][i] == before.values[id][i]);
                    assert(shorter.take(i + 1) =~= klines.take(i + 1));
                } else {
                    assert(klines.take(i + 1) =~= klines);
                }
            }
        }
    }
}

/// Requesting one identifier registers it.
pub proof fn lemma_register_one(ids: Seq<IndicatorIdentifier>, id: IndicatorIdentifier)
    ensures
        register_all(ids, seq![id]) == register(ids, id),
{
    assert(seq![id].drop_last() =~= Seq::<IndicatorIdentifier>::empty());
    reveal_with_fuel(register_all, 3);
}

/// The most recent candles of a chronological run are chronological, and
/// there are no more of them than were asked for.
pub proof fn lemma_tail_ascending(candles: Seq<Kline>, count: int)
    requires
        ascending(candle_times(candles)),
        count >= 0,
    ensures
        ascending(candle_times(tail(candles, count))),
        tail(candles, count).len() <= count,
        tail(candles, count).len() <= candles.len(),
{
    let recent = tail(candles, count);
    let skipped = candles.len() - recent.len();
    assert forall|i: int, j: int| 0 <= i < j < recent.len() implies candle_times(recent)[i] < candle_times(
        recent,
    )[j] by {
        assert(recent[i] == candles[skipped + i]);
        assert(recent[j] == candles[skipped + j]);
        assert(candle_times(candles)[skipped + i] < candle_times(candles)[skipped + j]);
    }
}

/// The most recent readings of an indicator are the end of its readings:
/// there are no more of them than were asked for, they keep their order,
/// and their times are chronological where those of all readings are.
pub proof fn lemma_tail_readings(times: Seq<i64>, values: Seq<Seq<Decimal>>, count: int)
    requires
        ascending(times),
        times.len() == values.len(),
        count >= 0,
    ensures
        tail(values, count).len() <= count,
        tail(values, count).len() == tail(times, count).len(),
        ascending(tail(times, count)),
        forall|i: int|
            0 <= i < tail(values, count).len() ==> tail(values, count)[i] == values[values.len() - tail(
                values,
                count,
            ).len() + i],
{
    let recent = tail(times, count);
    let skipped = times.len() - recent.len();
    assert forall|i: int, j: int| 0 <= i < j < recent.len() implies recent[i] < recent[j] by {
        assert(recent[i] == times[skipped + i]);
        assert(recent[j] == times[skipped + j]);
    }
}

/// Storing a second candle at the time of the first leaves the number of
/// candles as it was after the first, keeps the second candle at that time,
/// and gives the candles that storing the second alone would give.
pub proof fn lemma_put_candle_twice(candles: Seq<Kline>, first: Kline, second: Kline)
    requires
        ascending(candle_times(candles)),
        first.time == second.time,
    ensures
        put_candle(put_candle(candles, first), second).len() == put_candle(candles, first).len(),
        put_candle(put_candle(candles, first), second)[rank(candle_times(candles), first.time)] == second,
        put_candle(put_candle(candles, first), second) == put_candle(candles, second),
        ascending(candle_times(put_candle(put_candle(candles, first), second))),
{
    let times = candle_times(candles);
    let once = put_candle(candles, first);
    lemma_put_candle_times(candles, first);
    lemma_upsert_time(times, first.time);
    crate::data_structures::timeline::lemma_rank_bounds(times, first.time);
    lemma_put_candle_times(once, second);
    lemma_upsert_time(candle_times(once), second.time);
    assert(put_candle(once, second) =~= put_candle(candles, second));
}

/// Inserting a second candle at the time of the first leaves the number of
/// candles as it was after the first and keeps the second candle's fields.
pub proof fn lemma_insert_twice(history: HistoryView, first: Kline, second: Kline)
    requires
        ascending(candle_times(history.candles)),
        first.time == second.time,
    ensures
        inserted(inserted(history, first), second).candles.len() == inserted(history, first).candles.len(),
        inserted(inserted(history, first), second).candles[rank(candle_times(history.candles), first.time)]
            == second,
        inserted(inserted(history, first), second).candles == inserted(history, second).candles,
{
    lemma_put_candle_twice(history.candles, first, second);
}

/// A copy of a value vector.
pub fn copy_values(values: &Vec<Decimal>) -> (res: Vec<Decimal>)
    ensures
        res@ == values@,
{
    let mut out: Vec<Decimal> = Vec::new();
    let mut i: usize = 0;
    while i < values.len()
        invariant
            i <= values.len(),
            out@ == values@.take(i as int),
        decreases values.len() - i,
    {
        out.push(values[i]);
        assert(values@.take(i + 1) =~= values@.take(i as int).push(values@[i as int]));
        i = i + 1;
    }
    assert(values@.take(values.len() as int) == values@);
    out
}

/// The values one calculator recorded, by the time of the candle whose
/// insertion recorded them.
struct IndicatorSeries {
    id: IndicatorIdentifier,
    calculator: Calculator,
    times: Vec<i64>,
    values: Vec<Vec<Decimal>>,
}

impl IndicatorSeries {
    spec fn wf(&self) -> bool {
        &&& self.calculator.identifier() == self.id
        &&& ascending(self.times@)
        &&& self.times@.len() == self.values@.len()
    }

    fn new(id: IndicatorIdentifier) -> (res: Self)
        ensures
            res.wf(),
            res.id == id,
            res.times@.len() == 0,
            res.values@.len() == 0,
    {
        IndicatorSeries { id, calculator: Factory::create(&id), times: Vec::new(), values: Vec::new() }
    }

    fn record(&mut self, time: i64, values: Vec<Decimal>)
        requires
            old(self).wf(),
        ensures
            final(self).wf(),
            final(self).id == old(self).id,
            final(self).calculator == old(self).calculator,
            final(self).times@ == upsert_time(old(self).times@, time),
            rows(final(self).values@) == upsert(old(self).times@, rows(old(self).values@), time, values@),
    {
        let r = lower_bound(&self.times, time);
        proof {
            lemma_upsert_time(self.times@, time);
        }
        if r < self.times.len() && self.times[r] == time {
            self.values[r] = values;
        } else {
            self.times.insert(r, time);
            self.values.insert(r, values);
        }
        assert(rows(self.values@) =~= upsert(old(self).times@, rows(old(self).values@), time, values@));
    }
}

/// Candles in order of time, one per timestamp, and for every requested
/// indicator the values recorded at each insertion since it was requested.
pub struct History {
    times: Vec<i64>,
    data: Vec<Kline>,
    series: Vec<IndicatorSeries>,
}

impl View for History {
    type V = HistoryView;

    closed spec fn view(&self) -> HistoryView {
        HistoryView {
            candles: self.data@,
            requested: self.ids(),
            times: Map::total(|id: IndicatorIdentifier| self.series_times(id)),
            values: Map::total(|id: IndicatorIdentifier| self.series_values(id)),
        }
    }
}

impl History {
    /// The candles in chronological order.
    pub open spec fn candles(&self) -> Seq<Kline> {
        self@.candles
    }

    /// The requested identifiers, in the order of their first request.
    pub open spec fn requested(&self) -> Seq<IndicatorIdentifier> {
        self@.requested
    }

    /// The times at which values of `id` are recorded, in chronological
    /// order.
    pub open spec fn reading_times(&self, id: IndicatorIdentifier) -> Seq<i64> {
        self@.times[id]
    }

    /// The value vectors recorded for `id`, in the order of their times.
    pub open spec fn reading_values(&self, id: IndicatorIdentifier) -> Seq<Seq<Decimal>> {
        self@.values[id]
    }

    spec fn ids(&self) -> Seq<IndicatorIdentifier> {
        self.series@.map_values(|s: IndicatorSeries| s.id)
    }

    spec fn series_times(&self, id: IndicatorIdentifier) -> Seq<i64> {
        if self.ids().contains(id) {
            self.series@[self.ids().index_of(id)].times@
        } else {
            Seq::empty()
        }
    }

    spec fn series_values(&self, id: IndicatorIdentifier) -> Seq<Seq<Decimal>> {
        if self.ids().contains(id) {
            rows(self.series@[self.ids().index_of(id)].values@)
        } else {
            Seq::empty()
        }
    }

    /// The invariant of the store.
    pub closed spec fn wf(&self) -> bool {
        &&& self.times@ == candle_times(self.data@)
        &&& ascending(self.times@)
        &&& self.requested().no_duplicates()
        &&& forall|j: int| 0 <= j < self.series@.len() ==> (#[trigger] self.series@[j]).wf()
        &&& forall|j: int| 0 <= j < self.series@.len() ==> within((#[trigger] self.series@[j]).times@, self.times@)
    }

    /// The contents of a well-formed store are coherent.
    pub proof fn lemma_wf(&self)
        requires
            self.wf(),
        ensures
            coherent(self@),
    {
        assert forall|id: IndicatorIdentifier| ascending(#[trigger] self.reading_times(id)) && self.reading_times(
            id,
        ).len() == self.reading_values(id).len() && within(self.reading_times(id), candle_times(self.candles())) by {
            if self.requested().contains(id) {
                let j = self.requested().index_of(id);
                assert(self.series@[j].wf());
                assert(within(self.series@[j].times@, self.times@));
            }
        }
    }

    /// An empty store with no indicator requested.
    pub fn new() -> (res: Self)
        ensures
            res.wf(),
            res@ == HistoryView::empty(),
    {
        let res = History { times: Vec::new(), data: Vec::new(), series: Vec::new() };
        assert(res.times@ =~= candle_times(res.data@));
        assert(res@.candles =~= Seq::empty());
        assert(res@.requested =~= Seq::empty());
        assert(res@.times =~= HistoryView::empty().times);
        assert(res@.values =~= HistoryView::empty().values);
        res
    }

    /// Stores the candle at its timestamp without recording any indicator.
    fn store(&mut self, kline: Kline)
        requires
            old(self).wf(),
        ensures
            final(self).wf(),
            final(self).candles() == put_candle(old(self).candles(), kline),
            final(self).series == old(self).series,
            final(self).times@.contains(kline.time),
    {
        let time = kline.time;
        let r = lower_bound(&self.times, time);
        proof {
            lemma_upsert_time(self.times@, time);
            lemma_put_candle_times(self.data@, kline);
            lemma_upsert_time_members(self.times@, time);
        }
        if r < self.times.len() && self.times[r] == time {
            self.data[r] = kline;
        } else {
            self.times.insert(r, time);
            self.data.insert(r, kline);
        }
        proof {
            assert(self.times@ == upsert_time(old(self).times@, time));
            assert forall|j: int| 0 <= j < self.series@.len() implies within(
                (#[trigger] self.series@[j]).times@,
                self.times@,
            ) by {
                let part = self.series@[j].times@;
                assert(within(old(self).series@[j].times@, old(self).times@));
                assert forall|i: int| 0 <= i < part.len() implies self.times@.contains(#[trigger] part[i]) by {
                    let x = part[i];
                    assert(old(self).times@.contains(x));
                    let k = choose|k: int| 0 <= k < old(self).times@.len() && old(self).times@[k] == x;
                    assert(self.times@.contains(old(self).times@[k]));
                }
            }
        }
    }

    /// The place of `id` among the requested identifiers.
    fn find(&self, id: &IndicatorIdentifier) -> (res: Option<usize>)
        requires
            self.wf(),
        ensures
            match res {
                Some(j) => self.requested().contains(*id) && j == self.requested().index_of(*id) && j
                    < self.series@.len(),
                None => !self.requested().contains(*id),
            },
    {
        let mut j: usize = 0;
        while j < self.series.len()
            invariant
                self.wf(),
                j <= self.series@.len(),
                forall|i: int| 0 <= i < j ==> self.requested()[i] != *id,
            decreases self.series@.len() - j,
        {
            if self.series[j].id == *id {
                proof {
                    let ids = self.requested();
                    assert(ids[j as int] == *id);
                    assert(ids.contains(*id));
                    let k = ids.index_of(*id);
                    assert(0 <= k < ids.len() && ids[k] == *id);
                    assert(k == j);
                }
                return Some(j);
            }
            j = j + 1;
        }
        None
    }

    /// A store that holds `klines`, each stored in turn, so that of two
    /// candles with one timestamp the later one stays. No indicator is
    /// requested and none is recorded.
    pub fn with_klines(klines: Vec<Kline>) -> (res: Self)
        ensures
            res.wf(),
            res@ == (HistoryView {
                candles: put_all(Seq::empty(), klines@),
                requested: Seq::empty(),
                times: HistoryView::empty().times,
                values: HistoryView::empty().values,
            }),
    {
        let mut res = History::new();
        let mut i: usize = 0;
        while i < klines.len()
            invariant
                i <= klines.len(),
                res.wf(),
                res.candles() == put_all(Seq::empty(), klines@.take(i as int)),
                res@.requested == Seq::<IndicatorIdentifier>::empty(),
                res@.times == HistoryView::empty().times,
                res@.values == HistoryView::empty().values,
            decreases klines.len() - i,
        {
            assert(klines@.take(i + 1).drop_last() == klines@.take(i as int));
            let ghost before = res@;
            res.store(klines[i].clone());
            proof {
                assert(res@.times =~= before.times);
                assert(res@.values =~= before.values);
            }
            i = i + 1;
        }
        assert(klines@.take(klines.len() as int) == klines@);
        res
    }

    /// Stores the candle at its timestamp, replacing the candle that stood
    /// there, then evaluates every requested indicator on the store as it
    /// now is and records the outcome at the candle's timestamp.
    pub fn insert(&mut self, kline: Kline)
        requires
            old(self).wf(),
        ensures
            final(self).wf(),
            final(self)@ == inserted(old(self)@, kline),
    {
        let time = kline.time;
        self.store(kline);
        let ghost before = self.series@;
        let ghost ids = self.requested();
        let mut j: usize = 0;
        while j < self.series.len()
            invariant
                self.wf(),
                self.times@.contains(time),
                self.candles() == put_candle(old(self).candles(), kline),
                self.series@.len() == before.len(),
                before == old(self).series@,
                ids == old(self).requested(),
                self.requested() == ids,
                j <= before.len(),
                forall|i: int| j <= i < before.len() ==> self.series@[i] == before[i],
                forall|i: int|
                    0 <= i < j ==> {
                        &&& (#[trigger] self.series@[i]).times@ == upsert_time(before[i].times@, time)
                        &&& rows(self.series@[i].values@) == upsert(
                            before[i].times@,
                            rows(before[i].values@),
                            time,
                            indicator_values(ids[i], self.candles()),
                        )
                    },
            decreases before.len() - j,
        {
            let ghost mid = self.series@;
            assert(self.series@[j as int].wf());
            assert(within(mid[j as int].times@, self.times@));
            let values = self.series[j].calculator.calculate(self);
            self.series[j].record(time, values);
            proof {
                assert(self.requested() =~= ids);
                lemma_upsert_time_members(mid[j as int].times@, time);
                assert forall|i: int| 0 <= i < self.series@.len() implies (#[trigger] self.series@[i]).wf() && within(
                    self.series@[i].times@,
                    self.times@,
                ) by {
                    if i != j {
                        assert(self.series@[i] == mid[i]);
                        assert(mid[i].wf());
                        assert(within(mid[i].times@, self.times@));
                    } else {
                        let part = self.series@[i].times@;
                        assert forall|k: int| 0 <= k < part.len() implies self.times@.contains(#[trigger] part[k]) by {
                            if part[k] != time {
                                let x = part[k];
                                assert(mid[j as int].times@.contains(x));
                                let w = choose|w: int| 0 <= w < mid[j as int].times@.len() && mid[j as int].times@[w] == x;
                                assert(self.times@.contains(mid[j as int].times@[w]));
                            }
                        }
                    }
                }
                assert(ids[j as int] == before[j as int].id);
            }
            j = j + 1;
        }
        proof {
            assert forall|id: IndicatorIdentifier| #[trigger]
                old(self).requested().contains(id) implies {
                &&& self.reading_times(id) == upsert_time(old(self).reading_times(id), kline.time)
                &&& self.reading_values(id) == upsert(
                    old(self).reading_times(id),
                    old(self).reading_values(id),
                    kline.time,
                    indicator_values(id, self.candles()),
                )
            } by {
                let i = ids.index_of(id);
                assert(self.series@[i].times@ == upsert_time(before[i].times@, time));
            }
            let target = inserted(old(self)@, kline);
            assert(self@.times =~= target.times);
            assert(self@.values =~= target.values);
        }
    }

    /// The calculator for `indicator`, which is requested from now on if it
    /// was not before.
    pub fn calculator(&mut self, indicator: &IndicatorIdentifier) -> (res: Calculator)
        requires
            old(self).wf(),
        ensures
            final(self).wf(),
            final(self)@ == requesting(old(self)@, seq![*indicator]),
            made_for(res, *indicator),
    {
        let ghost ids = self.requested();
        proof {
            lemma_register_one(ids, *indicator);
        }
        match self.find(indicator) {
            Some(_) => {},
            None => {
                let fresh = IndicatorSeries::new(*indicator);
                self.series.push(fresh);
                proof {
                    let after = self.requested();
                    assert(after =~= ids.push(*indicator));
                    assert forall|id: IndicatorIdentifier|
                        self.series_times(id) == old(self).series_times(id) && self.series_values(id) == old(
                            self,
                        ).series_values(id) by {
                        if ids.contains(id) {
                            let k = ids.index_of(id);
                            assert(after[k] == id);
                            assert(after.contains(id));
                            let k2 = after.index_of(id);
                            assert(k2 == k);
                        } else if id == *indicator {
                            assert(after[ids.len() as int] == id);
                            let k2 = after.index_of(id);
                            assert(k2 == ids.len());
                            assert(self.series_times(id) =~= old(self).series_times(id));
                            assert(self.series_values(id) =~= old(self).series_values(id));
                        } else {
                            if after.contains(id) {
                                let k2 = after.index_of(id);
                                assert(ids[k2] == id);
                            }
                        }
                    }
                    assert(self@.times =~= old(self)@.times);
                    assert(self@.values =~= old(self)@.values);
                }
            },
        }
        Factory::create(indicator)
    }

    /// Requests every identifier of `indicators`. Requesting one that is
    /// known changes nothing.
    pub fn request_calculators(&mut self, indicators: &[IndicatorIdentifier])
        requires
            old(self).wf(),
        ensures
            final(self).wf(),
            final(self)@ == requesting(old(self)@, indicators@),
    {
        let mut i: usize = 0;
        while i < indicators.len()
            invariant
                i <= indicators.len(),
                self.wf(),
                self@ == requesting(old(self)@, indicators@.take(i as int)),
            decreases indicators.len() - i,
        {
            proof {
                assert(indicators@.take(i + 1).drop_last() == indicators@.take(i as int));
                lemma_register_one(self@.requested, indicators@[i as int]);
            }
            let _ = self.calculator(&indicators[i]);
            i = i + 1;
        }
        assert(indicators@.take(indicators.len() as int) == indicators@);
    }

    /// The candle stored at `time`, if there is one.
    pub fn get(&self, time: i64) -> (res: Option<Kline>)
        requires
            self.wf(),
        ensures
            match res {
                Some(kline) => present(candle_times(self.candles()), time) && kline == self.candles()[rank(
                    candle_times(self.candles()),
                    time,
                )],
                None => !present(candle_times(self.candles()), time),
            },
    {
        let r = lower_bound(&self.times, time);
        if r < self.times.len() && self.times[r] == time {
            Some(self.data[r].clone())
        } else {
            None
        }
    }

    /// The `count` most recent value vectors recorded for `indicator`, in
    /// chronological order, or all of them where fewer are recorded; none
    /// for an identifier that was never requested.
    pub fn get_indicator_values(&self, indicator: &IndicatorIdentifier, count: usize) -> (res: Vec<Vec<Decimal>>)
        requires
            self.wf(),
        ensures
            rows(res@) == tail(self.reading_values(*indicator), count as int),
            res@.len() <= count,
    {
        let mut out: Vec<Vec<Decimal>> = Vec::new();
        match self.find(indicator) {
            None => {
                assert(rows(out@) =~= tail(self.reading_values(*indicator), count as int));
            },
            Some(j) => {
                let series = &self.series[j];
                let n = series.values.len();
                let start: usize = if count >= n {
                    0
                } else {
                    n - count
                };
                let mut i: usize = start;
                while i < n
                    invariant
                        start <= i <= n,
                        n == series.values@.len(),
                        rows(out@) == rows(series.values@).subrange(start as int, i as int),
                        out@.len() == i - start,
                    decreases n - i,
                {
                    let copy = copy_values(&series.values[i]);
                    out.push(copy);
                    assert(rows(out@) =~= rows(series.values@).subrange(start as int, i + 1));
                    i = i + 1;
                }
                assert(rows(out@) =~= tail(self.reading_values(*indicator), count as int));
            },
        }
        out
    }

    /// The requested identifiers, in the order of their first request.
    pub fn requested_indicators(&self) -> (res: Vec<IndicatorIdentifier>)
        ensures
            res@ == self@.requested,
    {
        let mut out: Vec<IndicatorIdentifier> = Vec::new();
        let mut j: usize = 0;
        while j < self.series.len()
            invariant
                j <= self.series@.len(),
                out@ == self.ids().take(j as int),
            decreases self.series@.len() - j,
        {
            out.push(self.series[j].id);
            assert(out@ =~= self.ids().take(j + 1));
            j = j + 1;
        }
        assert(self.ids().take(self.series@.len() as int) =~= self.ids());
        out
    }

    /// Number of candles.
    pub fn len(&self) -> (res: usize)
        ensures
            res == self.candles().len(),
    {
        self.data.len()
    }

    /// The `count` most recent candles in chronological order, or all of
    /// them where the store holds fewer.
    pub fn last(&self, count: usize) -> (res: Vec<Kline>)
        ensures
            res@ == tail(self.candles(), count as int),
            res@.len() <= count,
            self.wf() ==> ascending(candle_times(res@)),
    {
        proof {
            if self.wf() {
                self.lemma_wf();
                lemma_tail_ascending(self.candles(), count as int);
            }
        }
        let n = self.data.len();
        let start: usize = if count >= n {
            0
        } else {
            n - count
        };
        let mut out: Vec<Kline> = Vec::new();
        let mut i: usize = start;
        while i < n
            invariant
                start <= i <= n,
                n == self.data@.len(),
                out@ == self.data@.subrange(start as int, i as int),
            decreases n - i,
        {
            out.push(self.data[i].clone());
            assert(self.data@.subrange(start as int, i + 1) =~= self.data@.subrange(start as int, i as int).push(
                self.data@[i as int],
            ));
            i = i + 1;
        }
        assert(out@ =~= tail(self.candles(), count as int));
        out
    }
}

} // verus!
