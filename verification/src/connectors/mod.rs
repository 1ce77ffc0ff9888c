//! Adapters to market-data venues.

pub mod binance;
