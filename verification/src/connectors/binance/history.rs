//! The one-shot fetch of past candles.

use crate::clock::{is_timestamp, timestamp_exists};
use crate::connectors::binance::kline::{assemble_kline, assembled, DecodeError};
use crate::connectors::binance::Binance;
use crate::data_structures::kline::Kline;
use vstd::prelude::*;
use vstd::string::*;

verus! {

/// One row of the venue's answer: the six fields that are read of its
/// twelve.
#[derive(Debug, Clone, PartialEq, Eq)]
pub struct HistoryRow {
    pub open_time: i64,
    pub open: String,
    pub high: String,
    pub low: String,
    pub close: String,
    pub volume: String,
}

/// Why past candles could not be had.
#[derive(Debug, Clone, PartialEq, Eq)]
pub enum FetchError {
    /// The venue answered with a status that is no success.
    Api { status: u16, message: String },
    /// A row of the answer could not be read.
    Decode { row: usize, error: DecodeError },
}

/// Whether an HTTP status is a success.
pub open spec fn is_success(status: u16) -> bool {
    200 <= status <= 299
}

/// The candle that a row gives for `symbol`.
pub open spec fn row_candle(row: HistoryRow, symbol: String) -> Result<Kline, DecodeError> {
    assembled(row.open_time, is_timestamp(row.open_time), symbol, row.open@, row.high@, row.low@, row.close@, row.volume@)
}

/// The place of the first row that cannot be read, or the number of rows
/// where every row can.
pub open spec fn first_bad_row(rows: Seq<HistoryRow>, symbol: String) -> int
    decreases rows.len(),
{
    if rows.len() == 0 {
        0
    } else if first_bad_row(rows.drop_last(), symbol) < rows.len() - 1 {
        first_bad_row(rows.drop_last(), symbol)
    } else if row_candle(rows.last(), symbol) is Err {
        rows.len() - 1
    } else {
        rows.len() as int
    }
}

/// The first unreadable row lies within the rows or at their end, is
/// unreadable if it lies within, and every row before it is readable.
pub proof fn lemma_first_bad_row(rows: Seq<HistoryRow>, symbol: String)
    ensures
        0 <= first_bad_row(rows, symbol) <= rows.len(),
        first_bad_row(rows, symbol) < rows.len() ==> row_candle(rows[first_bad_row(rows, symbol)], symbol) is Err,
        forall|i: int| 0 <= i < first_bad_row(rows, symbol) ==> row_candle(#[trigger] rows[i], symbol) is Ok,
    decreases rows.len(),
{
    if rows.len() > 0 {
        lemma_first_bad_row(rows.drop_last(), symbol);
        let at = first_bad_row(rows, symbol);
        assert forall|i: int| 0 <= i < at implies row_candle(#[trigger] rows[i], symbol) is Ok by {
            if i < rows.len() - 1 {
                assert(rows.drop_last()[i] == rows[i]);
            }
        }
        if at < rows.len() - 1 {
            assert(rows.drop_last()[at] == rows[at]);
        }
    }
}

impl Binance {
    /// The address of the past candles of a symbol at an interval.
    pub open spec fn history_address(symbol: Seq<char>, interval: Seq<char>) -> Seq<char> {
        "https://api.binance.com/api/v3/klines?symbol="@ + symbol + "&interval="@ + interval
    }

    /// The address from which the past candles are fetched.
    pub fn history_url(&self) -> (res: String)
        ensures
            res@ == Binance::history_address(self.symbol_text()@, self.interval_text()@),
    {
        let mut url = String::from_str("https://api.binance.com/api/v3/klines?symbol=");
        url.append(self.symbol.as_str());
        url.append("&interval=");
        url.append(self.interval.as_str());
        url
    }

    /// What the venue's answer amounts to: its body where the status is a
    /// success, else an error that carries status and body.
    pub fn history_body(status: u16, body: String) -> (res: Result<String, FetchError>)
        ensures
            res == if is_success(status) {
                Ok::<String, FetchError>(body)
            } else {
                Err::<String, FetchError>(FetchError::Api { status, message: body })
            },
    {
        if 200 <= status && status <= 299 {
            Ok(body)
        } else {
            Err(FetchError::Api { status, message: body })
        }
    }

    /// The candle that a row gives, for the venue's symbol.
    pub fn kline_from_row(&self, row: &HistoryRow) -> (res: Result<Kline, DecodeError>)
        ensures
            res == row_candle(*row, self.symbol_text()),
    {
        let time_exists = timestamp_exists(row.open_time);
        assemble_kline(
            row.open_time,
            time_exists,
            self.symbol.clone(),
            row.open.as_str(),
            row.high.as_str(),
            row.low.as_str(),
            row.close.as_str(),
            row.volume.as_str(),
        )
    }

    /// The candles that the rows give, in their order, each for the venue's
    /// symbol; or the first row that cannot be read, with the reason.
    pub fn klines_from_rows(&self, rows: &Vec<HistoryRow>) -> (res: Result<Vec<Kline>, FetchError>)
        ensures
            match res {
                Ok(klines) => {
                    &&& first_bad_row(rows@, self.symbol_text()) == rows@.len()
                    &&& klines@.len() == rows@.len()
                    &&& forall|i: int|
                        0 <= i < rows@.len() ==> Ok::<Kline, DecodeError>(#[trigger] klines@[i]) == row_candle(
                            rows@[i],
                            self.symbol_text(),
                        )
                },
                Err(FetchError::Decode { row, error }) => {
                    &&& row == first_bad_row(rows@, self.symbol_text())
                    &&& row < rows@.len()
                    &&& Err::<Kline, DecodeError>(error) == row_candle(rows@[row as int], self.symbol_text())
                },
                Err(FetchError::Api { .. }) => false,
            },
    {
        let mut klines: Vec<Kline> = Vec::new();
        let mut i: usize = 0;
        while i < rows.len()
            invariant
                i <= rows@.len(),
                klines@.len() == i,
                first_bad_row(rows@.take(i as int), self.symbol_text()) == i,
                forall|k: int|
                    0 <= k < i ==> Ok::<Kline, DecodeError>(#[trigger] klines@[k]) == row_candle(
                        rows@[k],
                        self.symbol_text(),
                    ),
            decreases rows@.len() - i,
        {
            proof {
                assert(rows@.take(i + 1).drop_last() == rows@.take(i as int));
                lemma_bad_row_stays(rows@, self.symbol_text(), i + 1);
            }
            match self.kline_from_row(&rows[i]) {
                Ok(kline) => {
                    klines.push(kline);
                },
                Err(error) => {
                    return Err(FetchError::Decode { row: i, error });
                },
            }
            i = i + 1;
        }
        assert(rows@.take(rows@.len() as int) == rows@);
        Ok(klines)
    }
}

/// A row that cannot be read among the first `n` is the first such row of
/// all.
pub proof fn lemma_bad_row_stays(rows: Seq<HistoryRow>, symbol: String, n: int)
    requires
        0 <= n <= rows.len(),
    ensures
        first_bad_row(rows.take(n), symbol) < n ==> first_bad_row(rows, symbol) == first_bad_row(
            rows.take(n),
            symbol,
        ),
    decreases rows.len() - n,
{
    lemma_first_bad_row(rows.take(n), symbol);
    if n < rows.len() {
        assert(rows.take(n + 1).drop_last() == rows.take(n));
        lemma_bad_row_stays(rows, symbol, n + 1);
    } else {
        assert(rows.take(n) == rows);
    }
}

} // verus!
