//! Candle history, technical indicators, trading strategies and a
//! trade-simulation engine.
//!
//! Candles enter a [`data_structures::history::History`], which keeps them
//! in order of time and records the values of every requested indicator at
//! each insertion. Strategies read the history and give at most one signal;
//! a [`processor::Processor`] hands the signals to its consumers, of which
//! the simulated account in [`engines::trading`] opens and closes positions
//! and derives performance figures. [`connectors::binance`] holds the
//! addresses and the decoding of one venue and the rules of its live
//! session, and [`engines::generative`] draws and mutates strategy
//! parameters.
//!
//! Every price, balance and ratio is a [`decimal::Decimal`]: a fixed-point
//! number with eight fractional digits whose operations are total, round
//! toward zero, and clamp at the bounds of their range. Times are
//! milliseconds since the Unix epoch.
//!
//! The functions carry contracts over sequences, maps and integers, and the
//! laws that relate them are stated as proof functions beside them.

pub mod clock;
pub mod connectors;
pub mod data_structures;
pub mod decimal;
pub mod decimal_text;
pub mod engines;
pub mod indicators;
pub mod processor;
pub mod random;
pub mod signal_processors;
pub mod statistics;
pub mod strategies;
pub mod text;
