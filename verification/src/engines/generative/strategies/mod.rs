//! Parameter ranges of each strategy kind.

pub mod crossover;
pub mod rsi;
