//! The Binance venue: addresses, decoding of its candles, and the rules of
//! its live session.

pub mod history;
pub mod kline;
pub mod message;
pub mod source;
pub mod stream;

use vstd::prelude::*;
use vstd::string::*;

verus! {

/// One symbol at one candle interval on Binance.
#[derive(Debug)]
pub struct Binance {
    name: String,
    symbol: String,
    interval: String,
    connected: bool,
}

impl Binance {
    /// The venue's name, as text.
    pub closed spec fn name_text(&self) -> String {
        self.name
    }

    /// The symbol, as text.
    pub closed spec fn symbol_text(&self) -> String {
        self.symbol
    }

    /// The interval, as text.
    pub closed spec fn interval_text(&self) -> String {
        self.interval
    }

    /// Whether a live session is taken to be open.
    pub closed spec fn connected(&self) -> bool {
        self.connected
    }

    /// The venue for `symbol` at `interval`, named `binance` and not
    /// connected.
    pub fn new(symbol: String, interval: String) -> (res: Self)
        ensures
            res.name_text()@ == "binance"@,
            res.symbol_text() == symbol,
            res.interval_text() == interval,
            !res.connected(),
    {
        Binance { name: String::from_str("binance"), symbol, interval, connected: false }
    }
}

} // verus!
