//! Directional recommendations produced by strategies.

use crate::clock::{is_timestamp, timestamp_exists, timestamp_text, utc_text};
use crate::data_structures::kline::Kline;
use crate::decimal::Decimal;
use crate::text::{amount_text, push_signed, signed_digits};
use vstd::prelude::*;
use vstd::string::*;

verus! {

/// The direction a signal recommends.
#[derive(PartialEq, Eq, Structural, Debug, Clone, Copy)]
pub enum SignalType {
    Hold,
    Sell,
    Buy,
}

impl SignalType {
    /// The lower-case word for the direction.
    pub open spec fn label_spec(self) -> Seq<char> {
        match self {
            SignalType::Buy => "buy"@,
            SignalType::Sell => "sell"@,
            SignalType::Hold => "hold"@,
        }
    }

    /// The lower-case word for the direction: `buy`, `sell` or `hold`.
    pub fn label(&self) -> (res: String)
        ensures
            res@ == self.label_spec(),
    {
        match self {
            SignalType::Buy => String::from_str("buy"),
            SignalType::Sell => String::from_str("sell"),
            SignalType::Hold => String::from_str("hold"),
        }
    }
}

/// A recommendation for one symbol at one time and price, with the name of
/// the strategy that produced it.
#[derive(Debug, PartialEq)]
pub struct Signal {
    pub time: i64,
    pub symbol: String,
    pub signal_type: SignalType,
    pub price: Decimal,
    pub source: String,
}

impl Clone for Signal {
    fn clone(&self) -> (res: Self)
        ensures
            res == *self,
    {
        Signal {
            time: self.time,
            symbol: self.symbol.clone(),
            signal_type: self.signal_type,
            price: self.price,
            source: self.source.clone(),
        }
    }
}

impl Signal {
    /// A signal made of the given parts.
    pub fn new(time: i64, symbol: String, signal_type: SignalType, price: Decimal, source: String) -> (res: Self)
        ensures
            res == (Signal { time, symbol, signal_type, price, source }),
    {
        Signal { time, symbol, signal_type, price, source }
    }

    /// The signal that a candle gives rise to.
    pub open spec fn of_kline(signal_type: SignalType, source: String, kline: Kline) -> Signal {
        Signal { time: kline.time, symbol: kline.symbol, signal_type, price: kline.close, source }
    }

    /// A signal at a candle's time, for its symbol, priced at its close.
    pub fn with_kline(signal_type: SignalType, source: String, kline: &Kline) -> (res: Self)
        ensures
            res == Signal::of_kline(signal_type, source, *kline),
    {
        Signal {
            time: kline.time,
            symbol: kline.symbol.clone(),
            signal_type,
            price: kline.close,
            source,
        }
    }

    /// The text of a time: the UTC date and time where the time names a
    /// moment, else the number of milliseconds.
    pub open spec fn time_text(time: i64, time_exists: bool, moment: Seq<char>) -> Seq<char> {
        if time_exists {
            moment
        } else {
            signed_digits(time as int)
        }
    }

    /// The one-line description of a signal, given the text of its time.
    pub open spec fn description(&self, time: Seq<char>) -> Seq<char> {
        "Signal ("@ + time + ", "@ + self.symbol@ + " ,"@ + self.signal_type.label_spec() + ", Price "@
            + amount_text(self.price@, 2) + ")"@
    }

    /// The one-line description of the signal with the given text for its
    /// time: time, symbol, direction, and the price with two places.
    pub fn describe_at(&self, time: &str) -> (res: String)
        ensures
            res@ == self.description(time@),
    {
        let mut line = String::from_str("Signal (");
        line.append(time);
        line.append(", ");
        line.append(self.symbol.as_str());
        line.append(" ,");
        let direction = self.signal_type.label();
        line.append(direction.as_str());
        line.append(", Price ");
        self.price.push_text(&mut line, 2);
        line.append(")");
        assert(line@ =~= self.description(time@));
        line
    }

    /// The one-line description of the signal: its time as a UTC date and
    /// time, or as milliseconds where it names no moment, its symbol, its
    /// direction, and its price with two places.
    pub fn describe(&self) -> (res: String)
        ensures
            res@ == self.description(
                Signal::time_text(self.time, is_timestamp(self.time), utc_text(self.time)),
            ),
    {
        if timestamp_exists(self.time) {
            let time = timestamp_text(self.time);
            self.describe_at(time.as_str())
        } else {
            let mut time = String::new();
            push_signed(&mut time, self.time);
            assert(time@ =~= signed_digits(self.time as int));
            self.describe_at(time.as_str())
        }
    }

    /// A buy signal.
    pub fn buy(time: i64, symbol: String, price: Decimal, source: String) -> (res: Self)
        ensures
            res == (Signal { time, symbol, signal_type: SignalType::Buy, price, source }),
    {
        Signal::new(time, symbol, SignalType::Buy, price, source)
    }

    /// A sell signal.
    pub fn sell(time: i64, symbol: String, price: Decimal, source: String) -> (res: Self)
        ensures
            res == (Signal { time, symbol, signal_type: SignalType::Sell, price, source }),
    {
        Signal::new(time, symbol, SignalType::Sell, price, source)
    }

    /// A hold signal.
    pub fn hold(time: i64, symbol: String, price: Decimal, source: String) -> (res: Self)
        ensures
            res == (Signal { time, symbol, signal_type: SignalType::Hold, price, source }),
    {
        Signal::new(time, symbol, SignalType::Hold, price, source)
    }
}

} // verus!
