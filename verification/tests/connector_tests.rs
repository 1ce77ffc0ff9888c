use trading_core::clock::{TIMESTAMP_MAX, TIMESTAMP_MIN};
use trading_core::connectors::binance::history::{FetchError, HistoryRow};
use trading_core::connectors::binance::kline::{assemble_kline, kline_from_event, DecodeError};
use trading_core::connectors::binance::message::{KlineDetail, KlineEvent};
use trading_core::connectors::binance::source::LinkError;
use trading_core::connectors::binance::stream::{
    ConnectionState, Frame, SessionAction, SessionEvent, Stream, CHANNEL_CAPACITY, PING_INTERVAL_IN_SECONDS,
    RECONNECT_WAIT,
};
use trading_core::connectors::binance::Binance;
use trading_core::data_structures::kline::Kline;
use trading_core::decimal::Decimal;

fn amount(value: f64) -> Decimal {
    Decimal::from_raw((value * 100_000_000.0).round() as i64)
}

fn venue() -> Binance {
    Binance::new("BTCUSDT".to_string(), "1m".to_string())
}

fn row(time: i64, open: &str, high: &str, low: &str, close: &str, volume: &str) -> HistoryRow {
    HistoryRow {
        open_time: time,
        open: open.to_string(),
        high: high.to_string(),
        low: low.to_string(),
        close: close.to_string(),
        volume: volume.to_string(),
    }
}

fn event(start_time: i64, open: &str, close: &str) -> KlineEvent {
    KlineEvent {
        event_type: "kline".to_string(),
        time: start_time + 5,
        symbol: "OUTER".to_string(),
        kline: KlineDetail {
            start_time,
            end_time: start_time + 59_999,
            symbol: "BTCUSDT".to_string(),
            interval: "1m".to_string(),
            fist_trade_id: 1,
            last_trade_id: 2,
            open: open.to_string(),
            close: close.to_string(),
            low: "9.5".to_string(),
            high: "12.5".to_string(),
            volume: "1000.125".to_string(),
            trade_count: 2,
            closed: false,
            quote: "1.0".to_string(),
            active_volume: "2.0".to_string(),
            active_quote: "3.0".to_string(),
        },
    }
}

#[test]
fn venue_tells_its_name_symbol_and_interval() {
    let binance = venue();
    assert_eq!(binance.name(), "binance");
    assert_eq!(binance.symbol(), "BTCUSDT");
    assert_eq!(binance.timeframe(), "1m");
    assert!(!binance.is_connected());
}

#[test]
fn addresses_are_built_from_symbol_and_interval() {
    let binance = venue();
    assert_eq!(binance.history_url(), "https://api.binance.com/api/v3/klines?symbol=BTCUSDT&interval=1m");
    assert_eq!(binance.stream_url(), "wss://fstream.binance.com/ws/btcusdt@kline_1m");
    let other = Binance::new("EthUsdt".to_string(), "15m".to_string());
    assert_eq!(other.history_url(), "https://api.binance.com/api/v3/klines?symbol=EthUsdt&interval=15m");
    assert_eq!(other.stream_url(), "wss://fstream.binance.com/ws/ethusdt@kline_15m");
}

#[test]
fn connect_and_disconnect_follow_the_state() {
    let mut binance = venue();
    assert_eq!(binance.disconnect(), Err(LinkError::NotConnected));
    assert_eq!(binance.connect(), Ok("wss://fstream.binance.com/ws/btcusdt@kline_1m".to_string()));
    assert!(binance.is_connected());
    assert_eq!(binance.connect(), Err(LinkError::AlreadyConnected));
    assert!(binance.is_connected());
    assert_eq!(binance.disconnect(), Ok(()));
    assert!(!binance.is_connected());
    assert_eq!(binance.disconnect(), Err(LinkError::NotConnected));
    assert!(binance.connect().is_ok());
}

#[test]
fn connect_to_refuses_what_is_no_url() {
    let mut binance = venue();
    assert_eq!(binance.connect_to("not a url".to_string(), false), Err(LinkError::InvalidUrl));
    assert!(!binance.is_connected());
    assert_eq!(binance.connect_to("wss://example.org/ws".to_string(), true), Ok("wss://example.org/ws".to_string()));
    assert!(binance.is_connected());
    assert_eq!(binance.connect_to("not a url".to_string(), false), Err(LinkError::AlreadyConnected));
}

#[test]
fn history_body_needs_a_success_status() {
    assert_eq!(Binance::history_body(200, "[]".to_string()), Ok("[]".to_string()));
    assert_eq!(Binance::history_body(299, "x".to_string()), Ok("x".to_string()));
    for status in [0u16, 100, 199, 300, 404, 418, 500, u16::MAX] {
        assert_eq!(
            Binance::history_body(status, "oops".to_string()),
            Err(FetchError::Api { status, message: "oops".to_string() })
        );
    }
}

#[test]
fn rows_become_candles_of_the_venues_symbol() {
    let binance = venue();
    let kline = binance.kline_from_row(&row(1_700_000_000_000, "10.5", "12", "9.25", "11.75", "1234.5"));
    assert_eq!(
        kline,
        Ok(Kline {
            time: 1_700_000_000_000,
            symbol: "BTCUSDT".to_string(),
            open: amount(10.5),
            close: amount(11.75),
            low: amount(9.25),
            high: amount(12.0),
            volume: amount(1234.5),
        })
    );
}

#[test]
fn rows_are_refused_at_the_first_bad_field() {
    let binance = venue();
    let t = 1_700_000_000_000;
    assert_eq!(binance.kline_from_row(&row(i64::MAX, "x", "x", "x", "x", "x")), Err(DecodeError::StartTime));
    assert_eq!(binance.kline_from_row(&row(i64::MIN, "1", "1", "1", "1", "1")), Err(DecodeError::StartTime));
    assert_eq!(binance.kline_from_row(&row(t, "x", "x", "x", "x", "x")), Err(DecodeError::Open));
    assert_eq!(binance.kline_from_row(&row(t, "1", "x", "x", "x", "x")), Err(DecodeError::High));
    assert_eq!(binance.kline_from_row(&row(t, "1", "1", "x", "x", "x")), Err(DecodeError::Low));
    assert_eq!(binance.kline_from_row(&row(t, "1", "1", "1", "x", "x")), Err(DecodeError::Close));
    assert_eq!(binance.kline_from_row(&row(t, "1", "1", "1", "1", "")), Err(DecodeError::Volume));
    assert!(binance.kline_from_row(&row(0, "1", "1", "1", "1", "1")).is_ok());
    assert!(binance.kline_from_row(&row(-1, "1", "1", "1", "1", "1")).is_ok());
}

#[test]
fn start_times_are_taken_from_the_first_to_the_last_year_of_the_calendar() {
    assert_eq!(TIMESTAMP_MIN, -8_334_601_228_800_000);
    assert_eq!(TIMESTAMP_MAX, 8_210_266_876_799_999);
    let binance = venue();
    assert_eq!(binance.kline_from_row(&row(TIMESTAMP_MIN, "1", "1", "1", "1", "1")).map(|k| k.time), Ok(TIMESTAMP_MIN));
    assert_eq!(binance.kline_from_row(&row(TIMESTAMP_MAX, "1", "1", "1", "1", "1")).map(|k| k.time), Ok(TIMESTAMP_MAX));
    assert_eq!(binance.kline_from_row(&row(TIMESTAMP_MIN - 1, "1", "1", "1", "1", "1")), Err(DecodeError::StartTime));
    assert_eq!(binance.kline_from_row(&row(TIMESTAMP_MAX + 1, "1", "1", "1", "1", "1")), Err(DecodeError::StartTime));
    for time in [TIMESTAMP_MIN / 2, -86_400_000, -1, 0, 1, 1_700_000_000_000, TIMESTAMP_MAX / 2] {
        assert!(binance.kline_from_row(&row(time, "1", "1", "1", "1", "1")).is_ok());
    }
    for time in [i64::MIN, i64::MIN + 1, -9_000_000_000_000_000, 9_000_000_000_000_000, i64::MAX] {
        if time < TIMESTAMP_MIN || time > TIMESTAMP_MAX {
            assert_eq!(binance.kline_from_row(&row(time, "1", "1", "1", "1", "1")), Err(DecodeError::StartTime));
        }
    }
    // The text of the time follows the same range.
    let first = trading_core::data_structures::signal::Signal::new(
        TIMESTAMP_MIN,
        "S".to_string(),
        trading_core::data_structures::signal::SignalType::Hold,
        amount(1.0),
        "who".to_string(),
    );
    assert_eq!(first.describe(), "Signal (-262143-01-01 00:00:00 UTC, S ,hold, Price 1.00)");
    let last = trading_core::data_structures::signal::Signal::new(
        TIMESTAMP_MAX,
        "S".to_string(),
        trading_core::data_structures::signal::SignalType::Hold,
        amount(1.0),
        "who".to_string(),
    );
    assert_eq!(last.describe(), "Signal (+262142-12-31 23:59:59.999 UTC, S ,hold, Price 1.00)");
}

#[test]
fn assemble_kline_goes_by_the_given_answer_on_the_time() {
    assert_eq!(assemble_kline(5, false, "S".to_string(), "1", "1", "1", "1", "1"), Err(DecodeError::StartTime));
    assert_eq!(
        assemble_kline(i64::MAX, true, "S".to_string(), "1", "4", "2", "3", "5"),
        Ok(Kline {
            time: i64::MAX,
            symbol: "S".to_string(),
            open: amount(1.0),
            close: amount(3.0),
            low: amount(2.0),
            high: amount(4.0),
            volume: amount(5.0),
        })
    );
}

#[test]
fn all_rows_or_the_first_bad_one() {
    let binance = venue();
    assert_eq!(binance.klines_from_rows(&vec![]), Ok(vec![]));
    let good = vec![row(1000, "1", "2", "0.5", "1.5", "10"), row(2000, "1.5", "3", "1", "2.5", "20")];
    let klines = binance.klines_from_rows(&good).unwrap();
    assert_eq!(klines.len(), 2);
    assert_eq!(klines[0].time, 1000);
    assert_eq!(klines[1].close, amount(2.5));
    assert_eq!(klines[1].symbol, "BTCUSDT");
    let bad = vec![
        row(1000, "1", "2", "0.5", "1.5", "10"),
        row(2000, "1.5", "3", "low", "2.5", "20"),
        row(3000, "open", "3", "1", "2.5", "20"),
    ];
    assert_eq!(binance.klines_from_rows(&bad), Err(FetchError::Decode { row: 1, error: DecodeError::Low }));
}

#[test]
fn events_become_candles_of_the_candles_symbol() {
    assert_eq!(
        kline_from_event(event(1_700_000_000_000, "10", "11.5")),
        Ok(Kline {
            time: 1_700_000_000_000,
            symbol: "BTCUSDT".to_string(),
            open: amount(10.0),
            close: amount(11.5),
            low: amount(9.5),
            high: amount(12.5),
            volume: amount(1000.125),
        })
    );
    assert_eq!(kline_from_event(event(1_700_000_000_000, "ten", "11.5")), Err(DecodeError::Open));
    assert_eq!(kline_from_event(event(1_700_000_000_000, "10", "")), Err(DecodeError::Close));
    assert_eq!(kline_from_event(event(i64::MAX, "10", "11.5")), Err(DecodeError::StartTime));
}

fn run(events: &[SessionEvent]) -> (Stream, Vec<SessionAction>) {
    let mut stream = Stream::new();
    let actions = events.iter().map(|e| stream.manage_connection(*e)).collect();
    (stream, actions)
}

#[test]
fn the_session_connects_and_keeps_alive() {
    assert_eq!(RECONNECT_WAIT, 5);
    assert_eq!(PING_INTERVAL_IN_SECONDS, 600);
    assert_eq!(CHANNEL_CAPACITY, 100);
    assert_eq!(Stream::new().state(), ConnectionState::Disconnected);
    let (stream, actions) = run(&[
        SessionEvent::Start,
        SessionEvent::Opened,
        SessionEvent::KeepaliveDue,
        SessionEvent::PingFailed,
        SessionEvent::Received(Frame::Text),
        SessionEvent::Delivered,
        SessionEvent::Received(Frame::Ping),
        SessionEvent::Received(Frame::Other),
    ]);
    assert_eq!(
        actions,
        vec![
            SessionAction::Open,
            SessionAction::StartKeepalive,
            SessionAction::SendPing,
            SessionAction::Nothing,
            SessionAction::Forward,
            SessionAction::Nothing,
            SessionAction::SendPong,
            SessionAction::Nothing,
        ]
    );
    assert_eq!(stream.state(), ConnectionState::Connected);
}

#[test]
fn the_session_backs_off_and_retries_without_end() {
    for ending in [
        SessionEvent::Received(Frame::Close),
        SessionEvent::PongFailed,
        SessionEvent::Ended,
        SessionEvent::TransportFailed,
    ] {
        let (mut stream, actions) = run(&[SessionEvent::Start, SessionEvent::Opened, ending]);
        let expected = if ending == SessionEvent::TransportFailed { SessionAction::ReportAndWait } else { SessionAction::Wait };
        assert_eq!(actions[2], expected);
        assert_eq!(stream.state(), ConnectionState::Backoff);
        for _ in 0..50 {
            assert_eq!(stream.manage_connection(SessionEvent::WaitOver), SessionAction::Open);
            assert_eq!(stream.state(), ConnectionState::Connecting);
            assert_eq!(stream.manage_connection(SessionEvent::OpenFailed), SessionAction::Wait);
            assert_eq!(stream.state(), ConnectionState::Backoff);
        }
        assert_eq!(stream.manage_connection(SessionEvent::WaitOver), SessionAction::Open);
        assert_eq!(stream.manage_connection(SessionEvent::Opened), SessionAction::StartKeepalive);
        assert_eq!(stream.state(), ConnectionState::Connected);
    }
}

#[test]
fn the_session_stops_when_the_consumer_is_gone() {
    let (mut stream, actions) = run(&[
        SessionEvent::Start,
        SessionEvent::Opened,
        SessionEvent::Received(Frame::Text),
        SessionEvent::ConsumerGone,
    ]);
    assert_eq!(actions[3], SessionAction::Stop);
    assert_eq!(stream.state(), ConnectionState::Disconnected);
    assert_eq!(stream.manage_connection(SessionEvent::WaitOver), SessionAction::Nothing);
    assert_eq!(stream.state(), ConnectionState::Disconnected);
    assert_eq!(Stream::handle_text_message(true), SessionEvent::Delivered);
    assert_eq!(Stream::handle_text_message(false), SessionEvent::ConsumerGone);
}

#[test]
fn events_out_of_place_change_nothing() {
    let all = [
        SessionEvent::Start,
        SessionEvent::Opened,
        SessionEvent::OpenFailed,
        SessionEvent::KeepaliveDue,
        SessionEvent::PingFailed,
        SessionEvent::Received(Frame::Text),
        SessionEvent::Received(Frame::Ping),
        SessionEvent::Received(Frame::Close),
        SessionEvent::Received(Frame::Other),
        SessionEvent::Delivered,
        SessionEvent::ConsumerGone,
        SessionEvent::PongFailed,
        SessionEvent::TransportFailed,
        SessionEvent::Ended,
        SessionEvent::WaitOver,
    ];
    for e in all {
        let mut stream = Stream::new();
        let action = stream.manage_connection(e);
        if e == SessionEvent::Start {
            assert_eq!((stream.state(), action), (ConnectionState::Connecting, SessionAction::Open));
        } else {
            assert_eq!((stream.state(), action), (ConnectionState::Disconnected, SessionAction::Nothing));
        }
        let (mut backoff, _) = run(&[SessionEvent::Start, SessionEvent::OpenFailed]);
        let action = backoff.manage_connection(e);
        if e == SessionEvent::WaitOver {
            assert_eq!((backoff.state(), action), (ConnectionState::Connecting, SessionAction::Open));
        } else {
            assert_eq!((backoff.state(), action), (ConnectionState::Backoff, SessionAction::Nothing));
        }
    }
    assert_eq!(Stream::handle_frame(Frame::Text), (ConnectionState::Connected, SessionAction::Forward));
    assert_eq!(Stream::handle_frame(Frame::Ping), (ConnectionState::Connected, SessionAction::SendPong));
    assert_eq!(Stream::handle_frame(Frame::Close), (ConnectionState::Backoff, SessionAction::Wait));
    assert_eq!(Stream::handle_frame(Frame::Other), (ConnectionState::Connected, SessionAction::Nothing));
}
