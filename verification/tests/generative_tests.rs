use trading_core::decimal::Decimal;
use trading_core::decimal::wide_round_div;
use trading_core::engines::generative::mutators::{draw_unit, mutate_f64, mutate_usize};
use trading_core::engines::generative::strategies::crossover::{EMACrossoverStrategyParams, EMA_PERIOD_MAX, EMA_PERIOD_MIN};
use trading_core::engines::generative::strategies::rsi::{
    MutationDraws, RSI_LEVEL_MAX, RSI_LEVEL_MIN, RSI_LEVEL_TOP, RSI_PERIOD_MAX, RSI_PERIOD_MIN,
};
use trading_core::strategies::factory::StrategyIdentifier;
use trading_core::strategies::rsi_strategy::RSIStrategyParams;

fn amount(value: f64) -> Decimal {
    Decimal::from_raw((value * 100_000_000.0).round() as i64)
}

#[test]
fn rounding_goes_to_the_nearest_with_halves_away_from_zero() {
    assert_eq!(wide_round_div(7, 2), 4);
    assert_eq!(wide_round_div(-7, 2), -4);
    assert_eq!(wide_round_div(5, 10), 1);
    assert_eq!(wide_round_div(-5, 10), -1);
    assert_eq!(wide_round_div(4, 10), 0);
    assert_eq!(wide_round_div(-4, 10), 0);
    assert_eq!(wide_round_div(14, 10), 1);
    assert_eq!(wide_round_div(16, 10), 2);
    assert_eq!(wide_round_div(0, 3), 0);
}

#[test]
fn mutate_usize_exact_values() {
    // 0.5 * 0.5 * (50 - 5) = 11.25, which rounds to 11.
    assert_eq!(mutate_usize(10, 5, 50, amount(0.5), amount(0.5)), 21);
    // A full step down leaves the range and is held at its lower end.
    assert_eq!(mutate_usize(10, 5, 50, amount(1.0), amount(-1.0)), 5);
    assert_eq!(mutate_usize(40, 5, 50, amount(1.0), amount(0.99999999)), 50);
    // 0.5 rounds away from zero.
    assert_eq!(mutate_usize(0, 0, 1, amount(1.0), amount(0.5)), 1);
    assert_eq!(mutate_usize(1, 0, 1, amount(1.0), amount(-0.5)), 0);
    assert_eq!(mutate_usize(20, 7, 28, amount(0.1), Decimal::from_raw(-33_333_333)), 19);
    assert_eq!(mutate_usize(20, 7, 28, amount(0.0), amount(0.9)), 20);
    assert_eq!(mutate_usize(20, 7, 28, amount(1.0), amount(0.0)), 20);
    // A value outside the range is brought into it.
    assert_eq!(mutate_usize(100, 7, 28, amount(0.0), amount(0.0)), 28);
    assert_eq!(mutate_usize(0, 7, 28, amount(0.0), amount(0.0)), 7);
    assert_eq!(mutate_usize(9, 9, 9, amount(5.0), amount(0.5)), 9);
    assert_eq!(mutate_usize(usize::MAX, 0, usize::MAX, Decimal::from_raw(i64::MAX), amount(0.99999999)), usize::MAX);
    assert_eq!(mutate_usize(0, 0, usize::MAX, Decimal::from_raw(i64::MAX), amount(-1.0)), 0);
}

#[test]
fn mutate_f64_exact_values() {
    // 0.25 * 0.5 * (40 - 10) = 3.75.
    assert_eq!(mutate_f64(amount(25.0), amount(10.0), amount(40.0), amount(0.5), amount(0.25)), amount(28.75));
    assert_eq!(mutate_f64(amount(25.0), amount(10.0), amount(40.0), amount(1.0), amount(0.99999999)), amount(40.0));
    assert_eq!(mutate_f64(amount(25.0), amount(10.0), amount(40.0), amount(1.0), amount(-1.0)), amount(10.0));
    assert_eq!(mutate_f64(amount(25.0), amount(10.0), amount(40.0), amount(0.0), amount(0.5)), amount(25.0));
    assert_eq!(mutate_f64(amount(50.0), amount(10.0), amount(40.0), amount(0.0), amount(0.5)), amount(40.0));
    assert_eq!(mutate_f64(amount(25.0), amount(10.0), amount(40.0), amount(0.1), amount(-0.5)), amount(23.5));
}

#[test]
fn draws_lie_in_the_unit_range() {
    let mut seen_negative = false;
    let mut seen_positive = false;
    for _ in 0..2000 {
        let unit = draw_unit();
        assert!(unit >= amount(-1.0) && unit < amount(1.0));
        seen_negative |= unit < amount(0.0);
        seen_positive |= unit > amount(0.0);
    }
    assert!(seen_negative && seen_positive);
}

#[test]
fn random_parameters_lie_in_their_ranges() {
    assert_eq!((EMA_PERIOD_MIN, EMA_PERIOD_MAX), (5, 50));
    assert_eq!((RSI_PERIOD_MIN, RSI_PERIOD_MAX), (7, 28));
    assert_eq!((RSI_LEVEL_MIN, RSI_LEVEL_MAX, RSI_LEVEL_TOP), (1_000_000_000, 4_000_000_000, 10_000_000_000));
    let mut kinds = (false, false);
    let mut periods = std::collections::HashSet::new();
    for _ in 0..2000 {
        let ema = EMACrossoverStrategyParams::random();
        assert!((5..=50).contains(&ema.period));
        periods.insert(ema.period);
        let rsi = RSIStrategyParams::random();
        assert!((7..=28).contains(&rsi.period));
        assert!(rsi.oversold_level >= amount(10.0) && rsi.oversold_level <= amount(40.0));
        assert_eq!(rsi.overbought_level, amount(100.0).minus(rsi.oversold_level));
        match StrategyIdentifier::random() {
            StrategyIdentifier::EMACrossoverStrategy(p) => {
                kinds.0 = true;
                assert!((5..=50).contains(&p.period));
            }
            StrategyIdentifier::RSIStrategy(p) => {
                kinds.1 = true;
                assert!((7..=28).contains(&p.period));
                assert_eq!(p.overbought_level, amount(100.0).minus(p.oversold_level));
            }
        }
    }
    assert!(kinds.0 && kinds.1);
    assert!(periods.len() > 10);
}

#[test]
fn with_levels_mirrors_the_oversold_level() {
    assert_eq!(
        RSIStrategyParams::with_levels(14, amount(27.5)),
        RSIStrategyParams { period: 14, oversold_level: amount(27.5), overbought_level: amount(72.5) }
    );
}

#[test]
fn apply_mutation_moves_what_has_a_draw() {
    let start = RSIStrategyParams { period: 14, oversold_level: amount(30.0), overbought_level: amount(70.0) };
    let mut params = start;
    params.apply_mutation(&MutationDraws { period: None, oversold_level: None, overbought_level: None }, amount(0.5));
    assert_eq!(params, start);
    params.apply_mutation(
        &MutationDraws { period: Some(amount(0.5)), oversold_level: None, overbought_level: None },
        amount(0.5),
    );
    // 0.5 * 0.5 * (28 - 7) = 5.25.
    assert_eq!(params, RSIStrategyParams { period: 19, ..start });
    let mut params = start;
    params.apply_mutation(
        &MutationDraws { period: None, oversold_level: Some(amount(-0.5)), overbought_level: Some(amount(0.5)) },
        amount(0.2),
    );
    // 0.5 * 0.2 * 30 = 3, down from 30 and up from 70, the latter within 60..=90.
    assert_eq!(params, RSIStrategyParams { period: 14, oversold_level: amount(27.0), overbought_level: amount(73.0) });
    let mut params = start;
    params.apply_mutation(
        &MutationDraws { period: Some(amount(-1.0)), oversold_level: Some(amount(-1.0)), overbought_level: Some(amount(-1.0)) },
        amount(1.0),
    );
    assert_eq!(params, RSIStrategyParams { period: 7, oversold_level: amount(10.0), overbought_level: amount(60.0) });
}

#[test]
fn mutate_at_rate_zero_changes_nothing_and_at_any_rate_stays_in_range() {
    let start = RSIStrategyParams { period: 14, oversold_level: amount(30.0), overbought_level: amount(70.0) };
    for _ in 0..200 {
        let mut params = start;
        params.mutate(amount(0.0), amount(1.0));
        assert_eq!(params, start);
    }
    let mut changed = false;
    for _ in 0..500 {
        let mut params = start;
        params.mutate(amount(1.0), amount(1.0));
        assert!((7..=28).contains(&params.period));
        assert!(params.oversold_level >= amount(10.0) && params.oversold_level <= amount(40.0));
        assert!(params.overbought_level >= amount(60.0) && params.overbought_level <= amount(90.0));
        changed |= params != start;
        let mut half = start;
        half.mutate(amount(0.5), amount(0.3));
        assert!((7..=28).contains(&half.period));
    }
    assert!(changed);
}
