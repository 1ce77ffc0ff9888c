//! Candles from the venue's text fields.

use crate::clock::{is_timestamp, timestamp_exists};
use crate::connectors::binance::message::KlineEvent;
use crate::data_structures::kline::Kline;
use crate::decimal::Decimal;
use crate::decimal_text::parsed;
use vstd::prelude::*;

verus! {

/// Why a candle could not be made of the venue's fields.
#[derive(Debug, Clone, Copy, PartialEq, Eq, Structural)]
pub enum DecodeError {
    /// The start time names no moment.
    StartTime,
    /// The opening price is no amount.
    Open,
    /// The highest price is no amount.
    High,
    /// The lowest price is no amount.
    Low,
    /// The closing price is no amount.
    Close,
    /// The volume is no amount.
    Volume,
}

/// The candle made of a start time, whether that time names a moment, a
/// symbol, and five amounts as text; or the first field, in the order
/// time, open, high, low, close, volume, that cannot be read.
pub open spec fn assembled(
    time: i64,
    time_exists: bool,
    symbol: String,
    open: Seq<char>,
    high: Seq<char>,
    low: Seq<char>,
    close: Seq<char>,
    volume: Seq<char>,
) -> Result<Kline, DecodeError> {
    if !time_exists {
        Err(DecodeError::StartTime)
    } else if parsed(open) is None {
        Err(DecodeError::Open)
    } else if parsed(high) is None {
        Err(DecodeError::High)
    } else if parsed(low) is None {
        Err(DecodeError::Low)
    } else if parsed(close) is None {
        Err(DecodeError::Close)
    } else if parsed(volume) is None {
        Err(DecodeError::Volume)
    } else {
        Ok(
            Kline {
                time,
                symbol,
                open: parsed(open)->0,
                close: parsed(close)->0,
                low: parsed(low)->0,
                high: parsed(high)->0,
                volume: parsed(volume)->0,
            },
        )
    }
}

/// Makes a candle of its fields, given whether the start time names a
/// moment.
pub fn assemble_kline(
    time: i64,
    time_exists: bool,
    symbol: String,
    open: &str,
    high: &str,
    low: &str,
    close: &str,
    volume: &str,
) -> (res: Result<Kline, DecodeError>)
    ensures
        res == assembled(time, time_exists, symbol, open@, high@, low@, close@, volume@),
{
    if !time_exists {
        return Err(DecodeError::StartTime);
    }
    let open = match Decimal::parse(open) {
        Some(v) => v,
        None => {
            return Err(DecodeError::Open);
        },
    };
    let high = match Decimal::parse(high) {
        Some(v) => v,
        None => {
            return Err(DecodeError::High);
        },
    };
    let low = match Decimal::parse(low) {
        Some(v) => v,
        None => {
            return Err(DecodeError::Low);
        },
    };
    let close = match Decimal::parse(close) {
        Some(v) => v,
        None => {
            return Err(DecodeError::Close);
        },
    };
    let volume = match Decimal::parse(volume) {
        Some(v) => v,
        None => {
            return Err(DecodeError::Volume);
        },
    };
    Ok(Kline { time, symbol, open, close, low, high, volume })
}

/// The candle that a live event reports: at the event's start time, for
/// the candle's symbol, with its five amounts read from text.
pub fn kline_from_event(event: KlineEvent) -> (res: Result<Kline, DecodeError>)
    ensures
        res == assembled(
            event.kline.start_time,
            is_timestamp(event.kline.start_time),
            event.kline.symbol,
            event.kline.open@,
            event.kline.high@,
            event.kline.low@,
            event.kline.close@,
            event.kline.volume@,
        ),
{
    let time_exists = timestamp_exists(event.kline.start_time);
    let detail = event.kline;
    assemble_kline(
        detail.start_time,
        time_exists,
        detail.symbol,
        detail.open.as_str(),
        detail.high.as_str(),
        detail.low.as_str(),
        detail.close.as_str(),
        detail.volume.as_str(),
    )
}

} // verus!
