//! An open holding of one symbol.

use crate::data_structures::signal::Signal;
use crate::decimal::Decimal;
use vstd::prelude::*;

verus! {

/// What was bought, when, and at which price.
#[derive(Debug, PartialEq)]
pub struct Position {
    pub entry_time: i64,
    pub entry_price: Decimal,
    pub amount: Decimal,
    pub symbol: String,
}

impl Clone for Position {
    fn clone(&self) -> (res: Self)
        ensures
            res == *self,
    {
        Position {
            entry_time: self.entry_time,
            entry_price: self.entry_price,
            amount: self.amount,
            symbol: self.symbol.clone(),
        }
    }
}

impl Position {
    /// The position that buying `amount` on `signal` opens.
    pub open spec fn opened_by(signal: Signal, amount: Decimal) -> Position {
        Position { entry_time: signal.time, entry_price: signal.price, amount, symbol: signal.symbol }
    }

    /// Opens a position of `amount` at the signal's time and price.
    pub fn from_signal(signal: &Signal, amount: Decimal) -> (res: Self)
        ensures
            res == Position::opened_by(*signal, amount),
    {
        Position {
            entry_time: signal.time,
            entry_price: signal.price,
            amount,
            symbol: signal.symbol.clone(),
        }
    }
}

} // verus!
