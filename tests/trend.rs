use std::collections::VecDeque;

use volatility_monitor::fitter::{FitResult, PriceFitter};
use volatility_monitor::fixed::PRICE_SCALE;
use volatility_monitor::trend_state::{StrategyState, TrendConfig, TrendDirection, TrendStateMachine};
use volatility_monitor::vwap::{VwapCalculator, VwapPoint};

const S: i64 = PRICE_SCALE as i64;

fn config() -> TrendConfig {
    TrendConfig {
        slope_threshold: 4 * S,
        ofi_confirm_threshold: S,
        cooldown_ms: 1000,
        slope_threshold_ratio_ppm: 250_000,
        min_price_fallback: 10 * PRICE_SCALE,
        max_price_fallback: 35 * PRICE_SCALE,
        entry_protection_ms: 1000,
        slope_weak_threshold: S / 2,
    }
}

fn fit(slope: i64, price: i64, valid: bool) -> FitResult {
    FitResult { slope, intercept: price, r_squared_ppm: 900_000, is_valid: valid, current_price: price }
}

#[test]
fn valid_fit_enters_long_once() {
    let mut m = TrendStateMachine::new(config());
    assert_eq!(m.get_state(), StrategyState::Scanning);
    m.update(0, Some(fit(5 * S, 100 * S, true)), 2 * S, 100 * S);
    assert_eq!(m.get_state(), StrategyState::Holding);
    assert_eq!(m.get_direction(), TrendDirection::Long);
    assert!(m.is_holding());
    m.update(0, Some(fit(5 * S, 100 * S, true)), 2 * S, 100 * S);
    assert_eq!(m.get_state(), StrategyState::Holding);
    assert_eq!(m.get_direction(), TrendDirection::Long);
}

#[test]
fn invalid_or_weak_fit_does_not_enter() {
    let mut m = TrendStateMachine::new(config());
    m.update(0, Some(fit(5 * S, 100 * S, false)), 2 * S, 100 * S);
    assert_eq!(m.get_state(), StrategyState::Scanning);
    m.update(0, Some(fit(5 * S, 100 * S, true)), S, 100 * S);
    assert_eq!(m.get_state(), StrategyState::Scanning);
    m.update(0, None, 2 * S, 100 * S);
    assert_eq!(m.get_state(), StrategyState::Scanning);
    assert_eq!(m.get_direction(), TrendDirection::Neutral);
}

#[test]
fn negative_slope_and_flow_enter_short() {
    let mut m = TrendStateMachine::new(config());
    m.update(0, Some(fit(-5 * S, 100 * S, true)), -2 * S, 100 * S);
    assert_eq!(m.get_state(), StrategyState::Holding);
    assert_eq!(m.get_direction(), TrendDirection::Short);
    // Price rises 12 above the falling line (threshold 10) after 2 s: exit.
    m.update(2000, Some(fit(-5 * S, 90 * S, true)), 0, 102 * S);
    assert_eq!(m.get_state(), StrategyState::Cooldown);
}

#[test]
fn fallback_exit_waits_for_protection() {
    let mut m = TrendStateMachine::new(config());
    m.update(0, Some(fit(5 * S, 100 * S, true)), 2 * S, 100 * S);
    m.update(500, Some(fit(5 * S, 100 * S, true)), 0, 50 * S);
    assert_eq!(m.get_state(), StrategyState::Holding);
    // Line at 110, threshold clamp(7.5, 10, 35) = 10: exit below 100.
    m.update(2000, Some(fit(5 * S, 110 * S, true)), 0, 100 * S);
    assert_eq!(m.get_state(), StrategyState::Holding);
    m.update(2000, Some(fit(5 * S, 110 * S, true)), 0, 100 * S - 1);
    assert_eq!(m.get_state(), StrategyState::Cooldown);
    assert_eq!(m.get_direction(), TrendDirection::Neutral);
}

#[test]
fn cooldown_ends_exactly_on_time() {
    let mut m = TrendStateMachine::new(config());
    m.update(0, Some(fit(5 * S, 100 * S, true)), 2 * S, 100 * S);
    m.update(2000, Some(fit(5 * S, 110 * S, true)), 0, 80 * S);
    assert_eq!(m.get_state(), StrategyState::Cooldown);
    m.update(2999, Some(fit(5 * S, 110 * S, true)), 2 * S, 110 * S);
    assert_eq!(m.get_state(), StrategyState::Cooldown);
    m.update(3000, Some(fit(5 * S, 110 * S, true)), 2 * S, 110 * S);
    assert_eq!(m.get_state(), StrategyState::Scanning);
}

#[test]
fn weak_slopes_exhaust_momentum() {
    let mut m = TrendStateMachine::new(config());
    m.update(0, Some(fit(5 * S, 100 * S, true)), 2 * S, 100 * S);
    for i in 0..9u64 {
        m.update(5000 + i, Some(fit(0, 200 * S, true)), 0, 200 * S);
        assert_eq!(m.get_state(), StrategyState::Holding);
    }
    m.update(5009, Some(fit(0, 200 * S, true)), 0, 200 * S);
    assert_eq!(m.get_state(), StrategyState::Cooldown);
}

#[test]
fn vwap_window_flushes_weighted_price() {
    let s = PRICE_SCALE;
    let mut v = VwapCalculator::new(1000, 10);
    assert!(v.add_trade(100 * s, s, 0).is_none());
    assert!(v.add_trade(102 * s, 3 * s, 500).is_none());
    let p = v.add_trade(200 * s, s, 1000).unwrap();
    assert_eq!(p, VwapPoint { price: 10_150_000_000, timestamp_ms: 500 });
    assert_eq!(v.get_series().len(), 1);
    let p = v.add_trade(300 * s, s, 2500).unwrap();
    assert_eq!(p, VwapPoint { price: 200 * s, timestamp_ms: 1000 });
}

#[test]
fn vwap_zero_volume_window_is_skipped() {
    let s = PRICE_SCALE;
    let mut v = VwapCalculator::new(100, 10);
    assert!(v.add_trade(100 * s, 0, 0).is_none());
    assert!(v.add_trade(101 * s, s, 200).is_none());
    assert_eq!(v.get_series().len(), 0);
}

#[test]
fn vwap_series_is_bounded_and_cleaned() {
    let s = PRICE_SCALE;
    let mut v = VwapCalculator::new(100, 3);
    for i in 0..6u64 {
        v.add_trade((100 + i) * s, s, i * 100);
    }
    let series: Vec<VwapPoint> = v.get_series().iter().copied().collect();
    assert_eq!(series.iter().map(|p| p.timestamp_ms).collect::<Vec<_>>(), vec![200, 300, 400]);
    v.cleanup(350);
    assert_eq!(v.get_series().iter().map(|p| p.timestamp_ms).collect::<Vec<_>>(), vec![400]);
}

#[test]
fn fit_needs_enough_recent_points() {
    let f = PriceFitter::new(5000, 3);
    let mut series = VecDeque::new();
    for i in 1..=10u64 {
        series.push_back(VwapPoint { price: 100 * PRICE_SCALE, timestamp_ms: i * 1000 });
    }
    let pts = f.fit_window(&series, 10_000).unwrap();
    assert_eq!(pts.len(), 6);
    assert_eq!(pts[0].timestamp_ms, 5000);
    let strict = PriceFitter::new(5000, 7);
    assert!(strict.fit_window(&series, 10_000).is_none());
    assert!(f.fit_window(&series, 20_000).is_none());
}

#[test]
fn predict_extrapolates_line() {
    let f = PriceFitter::new(5000, 3);
    assert_eq!(f.predict(&fit(2 * S, 100 * S, true), 1500), (103 * S) as i128);
    assert_eq!(f.predict(&fit(-1, 0, true), 1), -1);
}

#[test]
fn ratio_above_one_keeps_minimum_threshold() {
    let mut c = config();
    c.slope_threshold_ratio_ppm = 2_000_000;
    let mut m = TrendStateMachine::new(c);
    m.update(0, Some(fit(5 * S, 100 * S, true)), 2 * S, 100 * S);
    // Line at 110 after 2 s, threshold falls back to the minimum of 10.
    m.update(2000, Some(fit(5 * S, 110 * S, true)), 0, 100 * S);
    assert_eq!(m.get_state(), StrategyState::Holding);
    m.update(2000, Some(fit(5 * S, 110 * S, true)), 0, 100 * S - 1);
    assert_eq!(m.get_state(), StrategyState::Cooldown);
}

#[test]
fn large_elapsed_time_clamps_to_maximum_threshold() {
    let mut m = TrendStateMachine::new(config());
    m.update(0, Some(fit(5 * S, 100 * S, true)), 2 * S, 100 * S);
    // After 100 s the line is at 600 and the threshold is capped at 35.
    m.update(100_000, Some(fit(5 * S, 600 * S, true)), 0, 565 * S);
    assert_eq!(m.get_state(), StrategyState::Holding);
    m.update(100_001, Some(fit(5 * S, 600 * S, true)), 0, 500 * S);
    assert_eq!(m.get_state(), StrategyState::Cooldown);
}
