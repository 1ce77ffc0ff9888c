use trading_core::data_structures::kline::Kline;
use trading_core::data_structures::signal::SignalType;
use trading_core::decimal::Decimal;
use trading_core::indicators::ema::EMAParams;
use trading_core::indicators::IndicatorIdentifier;
use trading_core::processor::{AnySignalProcessor, NextStep, Processor, ProcessorMode, StrategyOption};
use trading_core::signal_processors::backtest::Backtest;
use trading_core::signal_processors::logging::Logging;
use trading_core::strategies::Strategy;

fn amount(value: f64) -> Decimal {
    Decimal::from_raw((value * 100_000_000.0).round() as i64)
}

fn candles(prices: &[f64]) -> Vec<Kline> {
    prices
        .iter()
        .enumerate()
        .map(|(i, price)| Kline {
            time: 60_000 * (i as i64 + 1),
            symbol: "BTCUSDT".to_string(),
            close: amount(*price),
            ..Default::default()
        })
        .collect()
}

fn processor() -> Processor {
    Processor::new(vec![
        AnySignalProcessor::Logging(Logging::new()),
        AnySignalProcessor::Backtest(Backtest::new(amount(1000.0), amount(0.1), amount(0.0))),
    ])
}

fn last_logged(processor: &Processor) -> Option<SignalType> {
    match processor.consumer(0) {
        AnySignalProcessor::Logging(logging) => logging.last_signal().map(|s| s.signal_type),
        AnySignalProcessor::Backtest(_) => panic!("consumer 0 is the log"),
    }
}

#[test]
fn a_new_processor_requests_the_moving_average_of_twenty() {
    let processor = processor();
    assert_eq!(processor.consumer_count(), 2);
    assert_eq!(processor.history().len(), 0);
    assert_eq!(
        processor.history().requested_indicators(),
        vec![IndicatorIdentifier::EMA(EMAParams { period: 20 })]
    );
    assert!(processor.backtest().is_some());
    assert!(Processor::new(vec![AnySignalProcessor::Logging(Logging::new())]).backtest().is_none());
    assert!(Processor::new(vec![]).backtest().is_none());
}

#[test]
fn modes_decide_on_what_follows_the_live_stream() {
    assert_eq!(Processor::after_live(ProcessorMode::Live), NextStep::Finish);
    assert_eq!(Processor::after_live(ProcessorMode::Backtest), NextStep::Summarize);
}

#[test]
fn a_run_fills_the_history_in_silence_and_then_follows_the_live_stream() {
    for mode in [ProcessorMode::Live, ProcessorMode::Backtest] {
        let mut processor = processor();
        // The past alone would be worth a buy and a sell; no consumer hears of it.
        let mut past = vec![100.0; 25];
        past.extend([110.0, 120.0, 50.0]);
        let past = candles(&past);
        let live = vec![
            Some(Kline { time: 60_000 * 29, symbol: "BTCUSDT".to_string(), close: amount(50.0), ..Default::default() }),
            None,
            Some(Kline { time: 60_000 * 30, symbol: "BTCUSDT".to_string(), close: amount(130.0), ..Default::default() }),
            None,
        ];
        let next = processor.start(mode, Some(past), live);
        assert_eq!(next, Processor::after_live(mode));
        assert_eq!(processor.history().len(), 30);
        let account = processor.backtest().unwrap().account();
        // Only the live candles were evaluated: a hold, then one buy at 130.
        assert_eq!(account.metrics().total_trades(), 0);
        assert_eq!(account.position_count(), 1);
        assert_eq!(account.balance(), amount(900.0));
        assert_eq!(
            account.position(&"BTCUSDT".to_string()).map(|p| (p.entry_time, p.entry_price)),
            Some((60_000 * 30, amount(130.0)))
        );
        assert_eq!(account.metrics().equity_points(), 2);
        assert_eq!(last_logged(&processor), Some(SignalType::Buy));
    }
}

#[test]
fn a_run_without_past_candles_still_follows_the_live_stream() {
    let mut processor = processor();
    let live: Vec<Option<Kline>> = candles(&[100.0, 100.0, 110.0]).into_iter().map(Some).collect();
    assert_eq!(processor.start(ProcessorMode::Live, None, live), NextStep::Finish);
    assert_eq!(processor.history().len(), 3);
    // One candle gives no signal; from the second on the strategy is heard.
    assert_eq!(last_logged(&processor), Some(SignalType::Buy));
    assert_eq!(processor.backtest().unwrap().account().position_count(), 1);

    let mut idle = self::processor();
    assert_eq!(idle.start(ProcessorMode::Backtest, None, vec![None, None]), NextStep::Summarize);
    assert_eq!(idle.history().len(), 0);
    assert_eq!(last_logged(&idle), None);
}

#[test]
fn backfill_and_live_items_one_by_one() {
    let mut processor = processor();
    processor.backfill(None);
    assert_eq!(processor.history().len(), 0);
    processor.backfill(Some(candles(&vec![100.0; 25])));
    assert_eq!(processor.history().len(), 25);
    assert_eq!(last_logged(&processor), None);
    processor.consume_live(None);
    assert_eq!(processor.history().len(), 25);
    assert_eq!(last_logged(&processor), None);
    processor.consume_live(Some(Kline {
        time: 60_000 * 26,
        symbol: "BTCUSDT".to_string(),
        close: amount(110.0),
        ..Default::default()
    }));
    assert_eq!(processor.history().len(), 26);
    assert_eq!(last_logged(&processor), Some(SignalType::Buy));
}

#[test]
fn backfill_fills_the_history_without_signals() {
    let mut processor = processor();
    let mut prices = vec![100.0; 25];
    prices.push(110.0);
    processor.consume_klines(candles(&prices), StrategyOption::Skip);
    assert_eq!(processor.history().len(), 26);
    assert_eq!(last_logged(&processor), None);
    assert_eq!(processor.backtest().unwrap().account().position_count(), 0);
    let id = IndicatorIdentifier::EMA(EMAParams { period: 20 });
    assert_eq!(processor.history().get_indicator_values(&id, 100).len(), 26);
}

#[test]
fn live_candles_reach_every_consumer_in_order() {
    let mut processor = processor();
    processor.consume_klines(candles(&vec![100.0; 25]), StrategyOption::Skip);
    assert_eq!(last_logged(&processor), None);
    // Price rises above the average: buy.
    processor.consume_kline(
        Kline { time: 60_000 * 26, symbol: "BTCUSDT".to_string(), close: amount(110.0), ..Default::default() },
        StrategyOption::Apply,
    );
    assert_eq!(last_logged(&processor), Some(SignalType::Buy));
    let account = processor.backtest().unwrap().account();
    assert_eq!(account.position_count(), 1);
    assert_eq!(account.balance(), amount(900.0));
    assert_eq!(account.last_signal().map(|s| (s.time, s.price, s.source)), Some((60_000 * 26, amount(110.0), "EMAPriceCrossOver".to_string())));
    // Price stays above: hold.
    processor.consume_kline(
        Kline { time: 60_000 * 27, symbol: "BTCUSDT".to_string(), close: amount(120.0), ..Default::default() },
        StrategyOption::Apply,
    );
    assert_eq!(last_logged(&processor), Some(SignalType::Hold));
    assert_eq!(processor.backtest().unwrap().account().position_count(), 1);
    // Price falls below the average: sell.
    processor.consume_kline(
        Kline { time: 60_000 * 28, symbol: "BTCUSDT".to_string(), close: amount(50.0), ..Default::default() },
        StrategyOption::Apply,
    );
    assert_eq!(last_logged(&processor), Some(SignalType::Sell));
    let account = processor.backtest().unwrap().account();
    assert_eq!(account.position_count(), 0);
    assert_eq!(account.metrics().total_trades(), 1);
    assert_eq!(processor.history().len(), 28);
}

#[test]
fn strategies_can_be_applied_to_given_candles() {
    let mut processor = processor();
    let mut prices = vec![100.0; 25];
    prices.extend([110.0, 120.0, 50.0]);
    processor.consume_klines(candles(&prices), StrategyOption::Apply);
    let metrics = processor.backtest().unwrap().get_performance_metrics();
    assert_eq!(metrics.total_trades, 1);
    assert_eq!(metrics.initial_balance, amount(1000.0));
    // Bought 100 / 110 at 110, sold at 50.
    let bought = amount(100.0).over(amount(110.0));
    assert_eq!(metrics.final_balance, amount(900.0).plus(bought.times(amount(50.0))));
    assert_eq!(metrics.profitable_trades, 0);
    assert_eq!(last_logged(&processor), Some(SignalType::Sell));
}

#[test]
fn wanted_indicators_lists_them_strategy_by_strategy() {
    let a = trading_core::strategies::factory::AnyStrategy::PriceCrossOver(
        trading_core::strategies::crossover::PriceCrossOverStrategy::new(
            "a".to_string(),
            IndicatorIdentifier::EMA(EMAParams { period: 5 }),
        ),
    );
    let b = trading_core::strategies::factory::AnyStrategy::RSI(trading_core::strategies::rsi_strategy::RSIStrategy::new(
        "b".to_string(),
        trading_core::strategies::rsi_strategy::RSIStrategyParams {
            period: 9,
            oversold_level: amount(30.0),
            overbought_level: amount(70.0),
        },
    ));
    assert_eq!(b.name(), "b");
    assert_eq!(
        Processor::wanted_indicators(&vec![a, b]),
        vec![
            IndicatorIdentifier::EMA(EMAParams { period: 5 }),
            IndicatorIdentifier::RSI(trading_core::indicators::rsi::RSIParams { period: 9 })
        ]
    );
    assert_eq!(Processor::wanted_indicators(&vec![]), vec![]);
}
