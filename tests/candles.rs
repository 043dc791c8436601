use volatility_monitor::fixed::{parse_decimal, PRICE_SCALE};
use volatility_monitor::kline::{Kline, KlineManager};
use volatility_monitor::models::{parse_levels, AggTrade, DepthUpdate};
use volatility_monitor::stats::{Heat, VolatilityStats};

#[test]
fn kline_same_second_updates_in_place() {
    let mut km = KlineManager::new(10);
    assert!(km.update(100, 1, 10).is_none());
    assert!(km.update(105, 2, 10).is_none());
    assert!(km.update(98, 1, 10).is_none());
    let k = km.current().unwrap();
    assert_eq!(k, Kline { open_time: 10, open: 100, high: 105, low: 98, close: 98, volume: 4 });
    assert_eq!(k.change(), -2);
    let done = km.update(99, 1, 11).unwrap();
    assert_eq!(done.close, 98);
    assert_eq!(km.history().len(), 1);
    assert_eq!(km.current().unwrap().open_time, 11);
}

#[test]
fn kline_history_is_bounded() {
    let mut km = KlineManager::new(2);
    for t in 0..5i64 {
        km.update(100, 1, t);
    }
    let times: Vec<i64> = km.history().iter().map(|k| k.open_time).collect();
    assert_eq!(times, vec![2, 3]);
}

#[test]
fn max_impact_candle_within_lookback() {
    let mut km = KlineManager::new(10);
    km.update(100, 1, 1);
    km.update(150, 1, 1);
    km.update(100, 1, 8);
    km.update(110, 1, 8);
    km.update(100, 1, 9);
    km.update(95, 1, 9);
    km.update(100, 1, 10);
    let best = km.find_max_impact_candle(5, 10).unwrap();
    assert_eq!(best.open_time, 8);
    assert!(km.find_max_impact_candle(0, 20).is_none());
    // Equal bodies: the later candle wins.
    let mut tie = KlineManager::new(10);
    tie.update(100, 1, 1);
    tie.update(110, 1, 1);
    tie.update(100, 1, 2);
    tie.update(90, 1, 2);
    tie.update(100, 1, 3);
    assert_eq!(tie.find_max_impact_candle(5, 3).unwrap().open_time, 2);
}

#[test]
fn histogram_clamps_to_last_bucket() {
    let mut st = VolatilityStats::new(10_000, 10);
    st.record(500_000);
    assert_eq!(st.buckets()[9], 1);
    st.record(25_000);
    assert_eq!(st.buckets()[2], 1);
    st.record(0);
    assert_eq!(st.buckets()[0], 1);
    assert_eq!(st.count(), 3);
}

#[test]
fn histogram_report_lists_non_empty_buckets() {
    let mut st = VolatilityStats::new(10_000, 10);
    st.record(5_000);
    st.record(35_000);
    st.record(35_001);
    st.record(990_000);
    let r = st.generate_report();
    assert_eq!(r.total_samples, 4);
    assert_eq!(r.hidden_buckets, 7);
    let idx: Vec<usize> = r.rows.iter().map(|row| row.index).collect();
    assert_eq!(idx, vec![0, 3, 9]);
    assert_eq!(r.rows[1].count, 2);
    assert_eq!(r.rows[0].heat, Heat::Low);
    assert_eq!(r.rows[1].heat, Heat::Medium);
    assert_eq!(r.rows[2].heat, Heat::Extreme);
    assert!(r.rows[2].is_overflow);
    assert!(!r.rows[1].is_overflow);
    st.reset();
    assert_eq!(st.count(), 0);
    assert_eq!(st.generate_report().rows.len(), 0);
}

#[test]
fn decimal_numerals_parse_exactly() {
    assert_eq!(parse_decimal("97123.40"), Some(9_712_340_000_000));
    assert_eq!(parse_decimal("0.001"), Some(100_000));
    assert_eq!(parse_decimal("42"), Some(42 * PRICE_SCALE));
    assert_eq!(parse_decimal("5."), Some(5 * PRICE_SCALE));
    assert_eq!(parse_decimal(".5"), Some(PRICE_SCALE / 2));
    assert_eq!(parse_decimal("0.123456789"), Some(12_345_678));
    assert_eq!(parse_decimal("184467440737.09551615"), Some(u64::MAX));
    assert_eq!(parse_decimal("184467440737.09551616"), None);
    assert_eq!(parse_decimal("1000000000000"), None);
}

#[test]
fn malformed_numerals_are_rejected() {
    assert_eq!(parse_decimal(""), None);
    assert_eq!(parse_decimal("."), None);
    assert_eq!(parse_decimal("abc"), None);
    assert_eq!(parse_decimal("1.2.3"), None);
    assert_eq!(parse_decimal("-1"), None);
    assert_eq!(parse_decimal("1e5"), None);
}

#[test]
fn events_parse_into_fixed_point() {
    let t = AggTrade {
        agg_id: 1,
        trade_time: 1000,
        price: "100.5".to_string(),
        quantity: "0.25".to_string(),
        is_buyer_maker: false,
    };
    assert_eq!(t.parsed(), Some((10_050_000_000, 25_000_000)));
    let bad = AggTrade { price: "x".to_string(), ..t };
    assert_eq!(bad.parsed(), None);
    let d = DepthUpdate {
        trans_time: 1,
        update_id: 2,
        bids: vec![("100.00".to_string(), "1.5".to_string())],
        asks: vec![("100.10".to_string(), "2".to_string())],
    };
    let (b, a) = d.parsed_levels().unwrap();
    assert_eq!(b, vec![(10_000_000_000, 150_000_000)]);
    assert_eq!(a, vec![(10_010_000_000, 200_000_000)]);
    assert_eq!(parse_levels(&vec![("1".to_string(), "?".to_string())]), None);
}
