//! One candle: the prices and volume of a fixed time bucket.

use crate::decimal::Decimal;
use vstd::prelude::*;
use vstd::string::*;

verus! {

/// A candle. `time` is the start of its bucket in milliseconds since the
/// Unix epoch, and orders the candles of a history.
#[derive(Debug, PartialEq)]
pub struct Kline {
    pub time: i64,
    pub symbol: String,
    pub open: Decimal,
    pub close: Decimal,
    pub low: Decimal,
    pub high: Decimal,
    pub volume: Decimal,
}

impl Clone for Kline {
    fn clone(&self) -> (res: Self)
        ensures
            res == *self,
    {
        Kline {
            time: self.time,
            symbol: self.symbol.clone(),
            open: self.open,
            close: self.close,
            low: self.low,
            high: self.high,
            volume: self.volume,
        }
    }
}

impl Default for Kline {
    /// A candle at the epoch with the symbol `UNKNOWN` and all amounts zero.
    fn default() -> (res: Self)
        ensures
            res.time == 0,
            res.symbol@ == "UNKNOWN"@,
            res.open@ == 0,
            res.close@ == 0,
            res.low@ == 0,
            res.high@ == 0,
            res.volume@ == 0,
    {
        Kline {
            time: 0,
            symbol: String::from_str("UNKNOWN"),
            open: Decimal::zero(),
            close: Decimal::zero(),
            low: Decimal::zero(),
            high: Decimal::zero(),
            volume: Decimal::zero(),
        }
    }
}

/// The closing prices of a run of candles.
pub open spec fn closes(candles: Seq<Kline>) -> Seq<Decimal> {
    candles.map_values(|k: Kline| k.close)
}

/// The timestamps of a run of candles.
pub open spec fn candle_times(candles: Seq<Kline>) -> Seq<i64> {
    candles.map_values(|k: Kline| k.time)
}

/// The closing prices of `candles`, in their order.
pub fn closing_prices(candles: &Vec<Kline>) -> (res: Vec<Decimal>)
    ensures
        res@ == closes(candles@),
{
    let mut out: Vec<Decimal> = Vec::new();
    let mut i: usize = 0;
    while i < candles.len()
        invariant
            i <= candles.len(),
            out@ == closes(candles@.take(i as int)),
        decreases candles.len() - i,
    {
        out.push(candles[i].close);
        assert(closes(candles@.take(i + 1)) =~= closes(candles@.take(i as int)).push(candles@[i as int].close));
        i = i + 1;
    }
    assert(candles@.take(candles.len() as int) == candles@);
    out
}

} // verus!
