use trading_core::data_structures::history::History;
use trading_core::data_structures::kline::Kline;
use trading_core::decimal::Decimal;
use trading_core::indicators::ema::EMAParams;
use trading_core::indicators::rsi::RSIParams;
use trading_core::indicators::IndicatorIdentifier;

fn amount(value: f64) -> Decimal {
    Decimal::from_raw((value * 100_000_000.0).round() as i64)
}

fn generate_klines_with_interval(start_time: i64, prices: &[f64], interval_secs: i64) -> Vec<Kline> {
    prices
        .iter()
        .enumerate()
        .map(|(i, price)| Kline {
            time: start_time + (i as i64) * interval_secs * 1000,
            close: amount(*price),
            ..Default::default()
        })
        .collect()
}

fn generate_klines(start_time: i64, count: usize) -> Vec<Kline> {
    let prices: Vec<f64> = (0..count).map(|_| 100.0).collect();
    generate_klines_with_interval(start_time, &prices, 1)
}

fn now() -> i64 {
    chrono::Utc::now().timestamp_millis()
}

#[test]
fn test_new_history() {
    let history = History::new();
    assert_eq!(history.len(), 0);
}

#[test]
fn test_insert_item() {
    let mut history = History::new();
    let klines = generate_klines(now(), 5);

    for kline in klines.clone() {
        history.insert(kline);
    }

    assert_eq!(history.len(), 5);

    for kline in klines {
        assert_eq!(history.get(kline.time), Some(kline))
    }
}

#[test]
fn test_get_last_n_items() {
    let mut history = History::new();
    let klines = generate_klines(now(), 10);

    for kline in klines.clone() {
        history.insert(kline)
    }

    let last_5_klines = history.last(5);
    let expected_klines = klines[5..10].to_vec();

    assert_eq!(last_5_klines, expected_klines);
}

#[test]
fn default_kline_is_unknown_at_the_epoch() {
    let kline = Kline::default();
    assert_eq!(kline.symbol, "UNKNOWN");
    assert_eq!(kline.time, 0);
    assert_eq!(kline.open, Decimal::zero());
    assert_eq!(kline.close, Decimal::zero());
    assert_eq!(kline.low, Decimal::zero());
    assert_eq!(kline.high, Decimal::zero());
    assert_eq!(kline.volume, Decimal::zero());
}

#[test]
fn insert_at_same_timestamp_replaces() {
    let mut history = History::new();
    for kline in generate_klines(1_700_000_000_000, 3) {
        history.insert(kline);
    }
    let first = Kline { time: 1_700_000_001_000, close: amount(7.0), symbol: "A".to_string(), ..Default::default() };
    let second = Kline {
        time: 1_700_000_001_000,
        close: amount(9.5),
        open: amount(9.0),
        volume: amount(3.0),
        symbol: "B".to_string(),
        ..Default::default()
    };
    history.insert(first);
    assert_eq!(history.len(), 3);
    history.insert(second.clone());
    assert_eq!(history.len(), 3);
    assert_eq!(history.get(1_700_000_001_000), Some(second.clone()));
    assert_eq!(history.last(2)[0], second);
}

#[test]
fn insert_out_of_order_keeps_time_order() {
    let mut history = History::new();
    let order = [5i64, 1, 9, 3, 7, 2, 8, 4, 6, 0];
    for t in order {
        history.insert(Kline { time: t * 1000, close: amount(t as f64), ..Default::default() });
    }
    assert_eq!(history.len(), 10);
    let all = history.last(10);
    for (i, kline) in all.iter().enumerate() {
        assert_eq!(kline.time, (i as i64) * 1000);
        assert_eq!(kline.close, amount(i as f64));
    }
    assert_eq!(history.get(4000).map(|k| k.close), Some(amount(4.0)));
    assert_eq!(history.get(4500), None);
}

#[test]
fn last_never_returns_more_than_asked_and_keeps_order() {
    let mut history = History::new();
    for t in (0..200i64).rev() {
        history.insert(Kline { time: t, close: amount(t as f64), ..Default::default() });
    }
    assert_eq!(history.len(), 200);
    for n in [0usize, 1, 2, 7, 199, 200, 201, 5000] {
        let recent = history.last(n);
        assert!(recent.len() <= n);
        assert_eq!(recent.len(), n.min(200));
        for pair in recent.windows(2) {
            assert!(pair[0].time < pair[1].time);
        }
        if let Some(latest) = recent.last() {
            assert_eq!(latest.time, 199);
        }
    }
    assert_eq!(history.last(3).iter().map(|k| k.time).collect::<Vec<i64>>(), vec![197, 198, 199]);
}

#[test]
fn indicator_values_never_return_more_than_asked_and_keep_order() {
    let id = IndicatorIdentifier::EMA(EMAParams { period: 1 });
    let mut history = History::new();
    history.request_calculators(&[id]);
    for t in 0..100i64 {
        history.insert(Kline { time: t, close: amount(t as f64), ..Default::default() });
    }
    for n in [0usize, 1, 2, 50, 100, 101] {
        let values = history.get_indicator_values(&id, n);
        assert!(values.len() <= n);
        assert_eq!(values.len(), n.min(100));
        for (i, reading) in values.iter().enumerate() {
            let t = 100 - values.len() + i;
            assert_eq!(reading, &vec![amount(t as f64)]);
        }
    }
}

#[test]
fn indicator_values_start_with_the_request() {
    let id = IndicatorIdentifier::EMA(EMAParams { period: 2 });
    let mut history = History::new();
    history.insert(Kline { time: 1, close: amount(10.0), ..Default::default() });
    history.insert(Kline { time: 2, close: amount(20.0), ..Default::default() });
    assert_eq!(history.get_indicator_values(&id, 5), Vec::<Vec<Decimal>>::new());
    history.request_calculators(&[id]);
    assert_eq!(history.get_indicator_values(&id, 5), Vec::<Vec<Decimal>>::new());
    history.insert(Kline { time: 3, close: amount(30.0), ..Default::default() });
    assert_eq!(history.get_indicator_values(&id, 5), vec![vec![amount(20.0), amount(26.66666666)]]);
    let other = IndicatorIdentifier::RSI(RSIParams { period: 2 });
    assert_eq!(history.get_indicator_values(&other, 5), Vec::<Vec<Decimal>>::new());
}

#[test]
fn reinserting_a_timestamp_replaces_its_reading() {
    let id = IndicatorIdentifier::EMA(EMAParams { period: 1 });
    let mut history = History::new();
    history.request_calculators(&[id]);
    history.insert(Kline { time: 1, close: amount(10.0), ..Default::default() });
    history.insert(Kline { time: 2, close: amount(20.0), ..Default::default() });
    history.insert(Kline { time: 2, close: amount(25.0), ..Default::default() });
    assert_eq!(history.get_indicator_values(&id, 5), vec![vec![amount(10.0)], vec![amount(25.0)]]);
    history.insert(Kline { time: 1, close: amount(11.0), ..Default::default() });
    assert_eq!(history.get_indicator_values(&id, 5), vec![vec![amount(25.0)], vec![amount(25.0)]]);
    assert_eq!(history.len(), 2);
}

#[test]
fn requesting_twice_registers_once() {
    let ema = IndicatorIdentifier::EMA(EMAParams { period: 3 });
    let rsi = IndicatorIdentifier::RSI(RSIParams { period: 3 });
    let mut history = History::new();
    history.request_calculators(&[ema, rsi, ema]);
    history.request_calculators(&[rsi]);
    assert_eq!(history.requested_indicators(), vec![ema, rsi]);
    let calculator = history.calculator(&IndicatorIdentifier::EMA(EMAParams { period: 4 }));
    assert_eq!(
        calculator,
        trading_core::indicators::factory::Calculator::EMA(trading_core::indicators::ema::EMA::new(EMAParams {
            period: 4
        }))
    );
    assert_eq!(history.requested_indicators().len(), 3);
}

#[test]
fn with_klines_keeps_the_later_of_two_candles_at_one_time() {
    let klines = vec![
        Kline { time: 30, close: amount(3.0), ..Default::default() },
        Kline { time: 10, close: amount(1.0), ..Default::default() },
        Kline { time: 30, close: amount(4.0), ..Default::default() },
        Kline { time: 20, close: amount(2.0), ..Default::default() },
    ];
    let history = History::with_klines(klines);
    assert_eq!(history.len(), 3);
    let closes: Vec<Decimal> = history.last(3).iter().map(|k| k.close).collect();
    assert_eq!(closes, vec![amount(1.0), amount(2.0), amount(4.0)]);
    assert_eq!(history.requested_indicators(), Vec::<IndicatorIdentifier>::new());
}
