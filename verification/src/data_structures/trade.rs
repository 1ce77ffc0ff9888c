//! A closed position and what it earned.

use crate::data_structures::position::Position;
use crate::data_structures::signal::Signal;
use crate::decimal::{clamp, sat_div, sat_mul, sat_sub, Decimal, SCALE};
use vstd::prelude::*;

verus! {

/// Raw value of `amount` units at `price`.
pub open spec fn value_at(amount: int, price: int) -> int {
    sat_mul(amount, price)
}

/// Raw profit or loss of selling `amount` at `exit` after buying it at `entry`.
pub open spec fn profit_loss_of(amount: int, entry: int, exit: int) -> int {
    sat_sub(value_at(amount, exit), value_at(amount, entry))
}

/// Raw profit or loss as a percentage of the entry value.
pub open spec fn profit_loss_percent_of(amount: int, entry: int, exit: int) -> int {
    sat_mul(sat_div(profit_loss_of(amount, entry, exit), value_at(amount, entry)), 100 * SCALE)
}

/// A position that was closed by a sell signal.
#[derive(Debug, PartialEq)]
pub struct Trade {
    pub symbol: String,
    pub entry_time: i64,
    pub exit_time: i64,
    pub entry_price: Decimal,
    pub exit_price: Decimal,
    pub amount: Decimal,
    pub profit_loss: Decimal,
    pub profit_loss_percent: Decimal,
}

impl Clone for Trade {
    fn clone(&self) -> (res: Self)
        ensures
            res == *self,
    {
        Trade {
            symbol: self.symbol.clone(),
            entry_time: self.entry_time,
            exit_time: self.exit_time,
            entry_price: self.entry_price,
            exit_price: self.exit_price,
            amount: self.amount,
            profit_loss: self.profit_loss,
            profit_loss_percent: self.profit_loss_percent,
        }
    }
}

impl Trade {
    /// The trade that closing `position` on `signal` records.
    pub open spec fn closing(position: Position, signal: Signal) -> Trade {
        Trade {
            symbol: position.symbol,
            entry_time: position.entry_time,
            exit_time: signal.time,
            entry_price: position.entry_price,
            exit_price: signal.price,
            amount: position.amount,
            profit_loss: Decimal {
                raw: profit_loss_of(position.amount@, position.entry_price@, signal.price@) as i64,
            },
            profit_loss_percent: Decimal {
                raw: profit_loss_percent_of(position.amount@, position.entry_price@, signal.price@) as i64,
            },
        }
    }

    /// Closes `position` at the signal's time and price. The profit is the
    /// exit value less the entry value; the percentage relates it to the
    /// entry value.
    pub fn from_position_and_sell_signal(position: &Position, signal: &Signal) -> (res: Self)
        ensures
            res == Trade::closing(*position, *signal),
    {
        let position_value = position.amount.times(signal.price);
        let entry_value = position.amount.times(position.entry_price);
        let profit_loss = position_value.minus(entry_value);
        let profit_loss_percent = profit_loss.over(entry_value).times(Decimal::from_int(100));
        Trade {
            symbol: position.symbol.clone(),
            entry_time: position.entry_time,
            exit_time: signal.time,
            entry_price: position.entry_price,
            exit_price: signal.price,
            amount: position.amount,
            profit_loss,
            profit_loss_percent,
        }
    }

    /// Value of the traded amount at the exit price.
    pub fn position_value(&self) -> (res: Decimal)
        ensures
            res@ == value_at(self.amount@, self.exit_price@),
    {
        proof {
            vstd::arithmetic::mul::lemma_mul_is_commutative(self.amount@, self.exit_price@);
        }
        self.exit_price.times(self.amount)
    }

    /// Value of the traded amount at the entry price.
    pub fn entry_value(&self) -> (res: Decimal)
        ensures
            res@ == value_at(self.amount@, self.entry_price@),
    {
        proof {
            vstd::arithmetic::mul::lemma_mul_is_commutative(self.amount@, self.entry_price@);
        }
        self.entry_price.times(self.amount)
    }

    /// Milliseconds from entry to exit, clamped to 64 bits.
    pub fn duration(&self) -> (res: i64)
        ensures
            res as int == clamp(self.exit_time - self.entry_time),
    {
        crate::decimal::narrow(self.exit_time as i128 - self.entry_time as i128)
    }
}

} // verus!
