use trading_core::data_structures::history::History;
use trading_core::data_structures::kline::Kline;
use trading_core::data_structures::signal::{Signal, SignalType};
use trading_core::decimal::Decimal;
use trading_core::engines::generative::strategies::crossover::EMACrossoverStrategyParams;
use trading_core::indicators::ema::EMAParams;
use trading_core::indicators::rsi::RSIParams;
use trading_core::indicators::IndicatorIdentifier;
use trading_core::strategies::crossover::PriceCrossOverStrategy;
use trading_core::strategies::factory::{AnyStrategy, Factory, StrategyIdentifier};
use trading_core::strategies::rsi_strategy::{RSIStrategy, RSIStrategyParams};
use trading_core::strategies::Strategy;

fn amount(value: f64) -> Decimal {
    Decimal::from_raw((value * 100_000_000.0).round() as i64)
}

fn generate_klines_with_prices(prices: &[f64]) -> Vec<Kline> {
    let start_time = chrono::Utc::now().timestamp_millis() - (prices.len() as i64) * 60_000;
    prices
        .iter()
        .enumerate()
        .map(|(i, price)| Kline {
            time: start_time + (i as i64) * 1000 * 1000,
            close: amount(*price),
            ..Default::default()
        })
        .collect()
}

fn ema_3() -> IndicatorIdentifier {
    IndicatorIdentifier::EMA(EMAParams { period: 3 })
}

#[test]
fn test_crossover_buy_signal() {
    let mut history = History::new();

    let ema = EMAParams { period: 3 };
    assert_eq!(ema.name(), "ema_3");
    history.request_calculators(&[IndicatorIdentifier::EMA(ema)]);

    let prices = vec![100.0, 100.0, 100.0, 101.0];
    let klines = generate_klines_with_prices(&prices);

    for kline in klines {
        history.insert(kline);
    }

    let strategy = PriceCrossOverStrategy::new("PriceCrossEMA".to_string(), IndicatorIdentifier::EMA(ema));

    let signals = strategy.generate_signals(&history);

    assert_eq!(signals.len(), 1);
    assert_eq!(signals[0].signal_type, SignalType::Buy);
}

#[test]
fn test_crossover_sell_signal() {
    let mut history = History::new();

    let ema = EMAParams { period: 3 };
    assert_eq!(ema.name(), "ema_3");
    history.request_calculators(&[IndicatorIdentifier::EMA(ema)]);

    let prices = vec![100.0, 100.0, 100.0, 99.0];
    let klines = generate_klines_with_prices(&prices);

    for kline in klines {
        history.insert(kline);
    }

    let strategy = PriceCrossOverStrategy::new("PriceCrossEMA".to_string(), IndicatorIdentifier::EMA(ema));

    let signals = strategy.generate_signals(&history);

    assert_eq!(signals.len(), 1);
    assert_eq!(signals[0].signal_type, SignalType::Sell);
}

#[test]
fn test_crossover_trend_up_hold_signal() {
    let mut history = History::new();

    let ema = EMAParams { period: 3 };
    assert_eq!(ema.name(), "ema_3");
    history.request_calculators(&[IndicatorIdentifier::EMA(ema)]);

    let prices = vec![101.0, 102.0, 103.0, 104.0];
    let klines = generate_klines_with_prices(&prices);

    for kline in klines {
        history.insert(kline);
    }

    let strategy = PriceCrossOverStrategy::new("PriceCrossEMA".to_string(), IndicatorIdentifier::EMA(ema));

    let signals = strategy.generate_signals(&history);

    assert_eq!(signals.len(), 1);
    assert_eq!(signals[0].signal_type, SignalType::Hold);
}

#[test]
fn test_crossover_trend_down_hold_signal() {
    let mut history = History::new();

    let ema = EMAParams { period: 3 };
    assert_eq!(ema.name(), "ema_3");
    history.request_calculators(&[IndicatorIdentifier::EMA(ema)]);

    let prices = vec![104.0, 103.0, 102.0, 101.0];
    let klines = generate_klines_with_prices(&prices);

    for kline in klines {
        history.insert(kline);
    }

    let strategy = PriceCrossOverStrategy::new("PriceCrossEMA".to_string(), IndicatorIdentifier::EMA(ema));

    let signals = strategy.generate_signals(&history);

    assert_eq!(signals.len(), 1);
    assert_eq!(signals[0].signal_type, SignalType::Hold);
}

#[test]
fn test_rsi_oversold_buy_signal() {
    let prices = vec![
        // falling prices
        100.0, 98.0, 96.0, 94.0, 92.0, 90.0, 88.0, 86.0, 84.0, 82.0, 80.0, 78.0, 76.0, 74.0, 72.0,
        // two consecutive rises intended to trigger a buy signal
        76.0, 80.0, 84.0,
    ];
    let strategy = RSIStrategy::new(
        "RSIOversold".to_string(),
        RSIStrategyParams { period: 14, oversold_level: amount(30.0), overbought_level: amount(70.0) },
    );

    let mut history = History::new();
    history.request_calculators(strategy.request_indicators().as_slice());

    for kline in generate_klines_with_prices(&prices) {
        history.insert(kline);
    }

    let signals = strategy.generate_signals(&history);

    assert_eq!(signals.len(), 1);
    assert_eq!(signals[0].signal_type, SignalType::Buy);
}

#[test]
fn test_rsi_overbought_sell_signal() {
    let prices = vec![
        // rising prices
        100.0, 102.0, 104.0, 106.0, 108.0, 110.0, 112.0, 114.0, 116.0, 118.0, 120.0, 122.0, 124.0, 126.0, 128.0,
        // three consecutive falls intended to trigger a sell signal
        124.0, 120.0, 116.0,
    ];
    let strategy = RSIStrategy::new(
        "RSIOversold".to_string(),
        RSIStrategyParams { period: 14, oversold_level: amount(30.0), overbought_level: amount(70.0) },
    );

    let mut history = History::new();
    history.request_calculators(strategy.request_indicators().as_slice());

    for kline in generate_klines_with_prices(&prices) {
        history.insert(kline);
    }

    let signals = strategy.generate_signals(&history);

    assert_eq!(signals.len(), 1);
    assert_eq!(signals[0].signal_type, SignalType::Sell);
}

#[test]
fn test_rsi_hold_signal() {
    let prices = vec![
        // flat prices
        100.0, 101.0, 100.0, 101.0, 100.0, 101.0, 100.0, 101.0, 100.0, 101.0, 100.0, 101.0, 100.0, 101.0, 100.0,
        101.0,
    ];
    let strategy = RSIStrategy::new(
        "RSIOversold".to_string(),
        RSIStrategyParams { period: 14, oversold_level: amount(30.0), overbought_level: amount(70.0) },
    );

    let mut history = History::new();
    history.request_calculators(strategy.request_indicators().as_slice());

    for kline in generate_klines_with_prices(&prices) {
        history.insert(kline);
    }

    let signals = strategy.generate_signals(&history);

    assert_eq!(signals.len(), 1);
    assert_eq!(signals[0].signal_type, SignalType::Hold);
}

#[test]
fn crossover_signal_is_made_of_the_latest_candle() {
    let mut history = History::new();
    history.request_calculators(&[ema_3()]);
    for (i, price) in [100.0, 100.0, 100.0, 101.0].iter().enumerate() {
        history.insert(Kline {
            time: 1000 * (i as i64 + 1),
            symbol: "BTCUSDT".to_string(),
            close: amount(*price),
            ..Default::default()
        });
    }
    let strategy = PriceCrossOverStrategy::new("PriceCrossEMA".to_string(), ema_3());
    assert_eq!(strategy.name(), "PriceCrossEMA");
    assert_eq!(strategy.request_indicators(), vec![ema_3()]);
    assert_eq!(
        strategy.generate_signals(&history),
        vec![Signal {
            time: 4000,
            symbol: "BTCUSDT".to_string(),
            signal_type: SignalType::Buy,
            price: amount(101.0),
            source: "PriceCrossEMA".to_string(),
        }]
    );
}

#[test]
fn no_signal_without_two_candles_or_two_readings() {
    let strategy = PriceCrossOverStrategy::new("PriceCrossEMA".to_string(), ema_3());
    let mut history = History::new();
    assert_eq!(strategy.generate_signals(&history), vec![]);
    history.insert(Kline { time: 1, close: amount(1.0), ..Default::default() });
    history.insert(Kline { time: 2, close: amount(2.0), ..Default::default() });
    // Two candles, but the indicator was never requested.
    assert_eq!(strategy.generate_signals(&history), vec![]);
    history.request_calculators(&[ema_3()]);
    history.insert(Kline { time: 3, close: amount(3.0), ..Default::default() });
    // One reading only.
    assert_eq!(strategy.generate_signals(&history), vec![]);
    history.insert(Kline { time: 4, close: amount(4.0), ..Default::default() });
    assert_eq!(strategy.generate_signals(&history).len(), 1);

    let rsi = RSIStrategy::new(
        "RSIOversold".to_string(),
        RSIStrategyParams { period: 14, oversold_level: amount(30.0), overbought_level: amount(70.0) },
    );
    let mut short = History::new();
    short.request_calculators(rsi.request_indicators().as_slice());
    for kline in generate_klines_with_prices(&[1.0, 2.0, 3.0, 4.0, 5.0]) {
        short.insert(kline);
    }
    // Readings exist, but hold no value yet.
    assert_eq!(short.get_indicator_values(&rsi.rsi_indicator_descriptor(), 2), vec![vec![], vec![]]);
    assert_eq!(rsi.generate_signals(&short), vec![]);
}

#[test]
fn detect_crossover_follows_the_rule() {
    let strategy = PriceCrossOverStrategy::new("x".to_string(), ema_3());
    let detect = |p0: f64, e0: f64, p1: f64, e1: f64| {
        strategy.detect_crossover(&[amount(p0), amount(p1)], &[vec![amount(e0)], vec![amount(e1)]])
    };
    assert_eq!(detect(10.0, 10.0, 11.0, 10.5), Some(SignalType::Buy));
    assert_eq!(detect(9.0, 10.0, 11.0, 10.5), Some(SignalType::Buy));
    assert_eq!(detect(10.0, 10.0, 9.0, 9.5), Some(SignalType::Sell));
    assert_eq!(detect(11.0, 10.0, 9.0, 9.5), Some(SignalType::Sell));
    assert_eq!(detect(10.0, 10.0, 10.0, 10.0), Some(SignalType::Hold));
    assert_eq!(detect(11.0, 10.0, 12.0, 11.0), Some(SignalType::Hold));
    assert_eq!(detect(9.0, 10.0, 10.0, 10.0), Some(SignalType::Hold));
    // Of longer series the last two count, and of a reading its last value.
    assert_eq!(
        strategy.detect_crossover(
            &[amount(50.0), amount(10.0), amount(11.0)],
            &[vec![amount(0.0)], vec![amount(99.0), amount(10.0)], vec![amount(1.0), amount(10.5)]]
        ),
        Some(SignalType::Buy)
    );
    assert_eq!(strategy.detect_crossover(&[amount(1.0)], &[vec![amount(1.0)], vec![amount(1.0)]]), None);
    assert_eq!(strategy.detect_crossover(&[amount(1.0), amount(2.0)], &[vec![amount(1.0)]]), None);
    assert_eq!(strategy.detect_crossover(&[amount(1.0), amount(2.0)], &[vec![], vec![amount(1.0)]]), None);
    assert_eq!(strategy.detect_crossover(&[amount(1.0), amount(2.0)], &[vec![amount(1.0)], vec![]]), None);
}

#[test]
fn detect_signal_follows_the_levels() {
    let strategy = RSIStrategy::new(
        "rsi".to_string(),
        RSIStrategyParams { period: 14, oversold_level: amount(30.0), overbought_level: amount(70.0) },
    );
    let detect = |previous: f64, current: f64| strategy.detect_signal(&[vec![amount(previous)], vec![amount(current)]]);
    assert_eq!(detect(30.0, 30.00000001), Some(SignalType::Buy));
    assert_eq!(detect(25.0, 35.0), Some(SignalType::Buy));
    assert_eq!(detect(25.0, 30.0), Some(SignalType::Hold));
    assert_eq!(detect(70.0, 69.99999999), Some(SignalType::Sell));
    assert_eq!(detect(75.0, 65.0), Some(SignalType::Sell));
    assert_eq!(detect(75.0, 70.0), Some(SignalType::Hold));
    assert_eq!(detect(50.0, 50.0), Some(SignalType::Hold));
    assert_eq!(strategy.detect_signal(&[vec![amount(25.0)]]), None);
    assert_eq!(strategy.detect_signal(&[vec![], vec![amount(25.0)]]), None);
    assert_eq!(strategy.detect_signal(&[vec![amount(25.0)], vec![]]), None);
    assert_eq!(strategy.rsi_indicator_descriptor(), IndicatorIdentifier::RSI(RSIParams { period: 14 }));
    assert_eq!(strategy.name(), "rsi");
}

#[test]
fn factory_builds_the_named_strategy() {
    let crossover = Factory::create(&StrategyIdentifier::EMACrossoverStrategy(EMACrossoverStrategyParams { period: 12 }));
    assert_eq!(
        crossover,
        AnyStrategy::PriceCrossOver(PriceCrossOverStrategy::new(
            "EmaCrossover".to_string(),
            IndicatorIdentifier::EMA(EMAParams { period: 12 })
        ))
    );
    assert_eq!(crossover.name(), "EmaCrossover");
    assert_eq!(crossover.request_indicators(), vec![IndicatorIdentifier::EMA(EMAParams { period: 12 })]);
    let params = RSIStrategyParams { period: 9, oversold_level: amount(20.0), overbought_level: amount(80.0) };
    let rsi = Factory::create(&StrategyIdentifier::RSIStrategy(params));
    assert_eq!(rsi, AnyStrategy::RSI(RSIStrategy::new("RSI".to_string(), params)));
    assert_eq!(rsi.request_indicators(), vec![IndicatorIdentifier::RSI(RSIParams { period: 9 })]);
    assert_eq!(rsi.generate_signals(&History::new()), vec![]);
}

#[test]
fn signal_constructors_set_the_direction() {
    let buy = Signal::buy(5, "S".to_string(), amount(1.5), "src".to_string());
    assert_eq!(buy, Signal::new(5, "S".to_string(), SignalType::Buy, amount(1.5), "src".to_string()));
    assert_eq!(Signal::sell(5, "S".to_string(), amount(1.5), "src".to_string()).signal_type, SignalType::Sell);
    assert_eq!(Signal::hold(5, "S".to_string(), amount(1.5), "src".to_string()).signal_type, SignalType::Hold);
    let kline = Kline { time: 77, symbol: "ETHUSDT".to_string(), close: amount(12.25), ..Default::default() };
    assert_eq!(
        Signal::with_kline(SignalType::Sell, "who".to_string(), &kline),
        Signal {
            time: 77,
            symbol: "ETHUSDT".to_string(),
            signal_type: SignalType::Sell,
            price: amount(12.25),
            source: "who".to_string()
        }
    );
    assert_eq!(SignalType::Buy.label(), "buy");
    assert_eq!(SignalType::Sell.label(), "sell");
    assert_eq!(SignalType::Hold.label(), "hold");
}
