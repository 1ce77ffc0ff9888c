//! The candle event of the live stream.

use vstd::prelude::*;

verus! {

/// One event of the live stream: its kind, its time, its symbol, and the
/// candle it reports.
#[derive(Debug, Clone, PartialEq, Eq)]
pub struct KlineEvent {
    pub event_type: String,
    pub time: i64,
    pub symbol: String,
    pub kline: KlineDetail,
}

/// The candle inside an event, with amounts as decimal text. Only the start
/// time, the symbol, and the five amounts are read.
#[derive(Debug, Clone, PartialEq, Eq)]
pub struct KlineDetail {
    pub start_time: i64,
    pub end_time: i64,
    pub symbol: String,
    pub interval: String,
    pub fist_trade_id: u32,
    pub last_trade_id: u32,
    pub open: String,
    pub close: String,
    pub low: String,
    pub high: String,
    pub volume: String,
    pub trade_count: u32,
    pub closed: bool,
    pub quote: String,
    pub active_volume: String,
    pub active_quote: String,
}

} // verus!
