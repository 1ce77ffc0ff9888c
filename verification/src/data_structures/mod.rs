//! Plain value types shared by the whole pipeline.

pub mod history;
pub mod kline;
pub mod performance_metrics;
pub mod position;
pub mod signal;
pub mod timeline;
pub mod trade;
