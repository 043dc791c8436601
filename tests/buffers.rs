use volatility_monitor::config::default_slack_enabled;
use volatility_monitor::fixed::PRICE_SCALE;
use volatility_monitor::ring_buffer::{BaseIndicator, RingBuffer};
use volatility_monitor::telemetry::TelemetryPolicy;
use volatility_monitor::volatility::InstantVolatilityIndicator;

const S: u64 = PRICE_SCALE;

#[test]
fn ring_buffer_evicts_oldest_first() {
    let mut rb: RingBuffer<u64> = RingBuffer::new(3);
    assert_eq!(rb.get_last_value(), None);
    for v in 1..=5u64 {
        rb.add_value(v);
    }
    assert_eq!(rb.get_as_vec(), vec![3, 4, 5]);
    assert_eq!(rb.get_last_value(), Some(5));
    assert!(rb.is_full());
    assert_eq!(rb.len(), 3);
    rb.clear();
    assert_eq!(rb.len(), 0);
    assert!(!rb.is_full());
}

#[test]
fn ring_buffer_holds_floats() {
    let mut rb: RingBuffer<f64> = RingBuffer::new(2);
    rb.add_value(1.5);
    assert!(!rb.is_full());
    rb.add_value(2.5);
    rb.add_value(3.5);
    assert_eq!(rb.get_as_vec(), vec![2.5, 3.5]);
}

#[test]
fn ring_buffer_of_zero_capacity_stays_empty() {
    let mut rb: RingBuffer<u64> = RingBuffer::new(0);
    rb.add_value(7);
    assert_eq!(rb.len(), 0);
    assert!(rb.is_full());
}

#[test]
fn volatility_window_never_exceeds_size() {
    let mut v = InstantVolatilityIndicator::new(3, 5000, 10000);
    for i in 0..10u64 {
        v.update(100 * S + i, 1000 + i, 1000 + i);
    }
    let w = v.get_volatility(1009);
    assert!(!w.is_stale);
    assert_eq!(w.prices, vec![100 * S + 7, 100 * S + 8, 100 * S + 9]);
    assert_eq!(w.duration_ms, 2);
    assert!(v.is_ready());
}

#[test]
fn volatility_with_one_sample_is_stale() {
    let mut v = InstantVolatilityIndicator::new(5, 5000, 10000);
    let w = v.get_volatility(0);
    assert!(w.is_stale);
    v.update(100 * S, 1000, 1000);
    let w = v.get_volatility(1000);
    assert!(w.is_stale);
    assert!(w.prices.is_empty());
    assert_eq!(w.duration_ms, 0);
    assert!(!v.can_calculate());
}

#[test]
fn volatility_silent_feed_is_stale() {
    let mut v = InstantVolatilityIndicator::new(5, 5000, 100000);
    v.update(100 * S, 0, 0);
    v.update(101 * S, 1000, 1000);
    assert!(!v.get_volatility(6000).is_stale);
    assert!(v.get_volatility(6001).is_stale);
}

#[test]
fn volatility_two_trades_one_second_apart() {
    let mut v = InstantVolatilityIndicator::new(2, 5000, 10000);
    v.update(100 * S, 0, 0);
    v.update(101 * S, 1000, 1000);
    let w = v.get_volatility(1000);
    assert!(!w.is_stale);
    assert_eq!(w.prices, vec![100 * S, 101 * S]);
    assert_eq!(w.duration_ms, 1000);
    assert!(v.is_ready());
    assert!(v.can_calculate());
}

#[test]
fn volatility_constant_prices_are_all_equal() {
    let mut v = InstantVolatilityIndicator::new(4, 5000, 10000);
    for t in 0..4u64 {
        v.update(250 * S, t * 100, t * 100);
    }
    let w = v.get_volatility(300);
    assert!(!w.is_stale);
    assert!(w.prices.iter().all(|p| *p == 250 * S));
}

#[test]
fn volatility_expired_samples_leave_before_insert() {
    let mut v = InstantVolatilityIndicator::new(10, 100000, 5000);
    v.update(100 * S, 0, 0);
    v.update(101 * S, 1000, 1000);
    // At 7000 ms both earlier samples are over 5000 ms old.
    v.update(102 * S, 7000, 7000);
    assert!(!v.can_calculate());
    v.update(103 * S, 7500, 7500);
    let w = v.get_volatility(7500);
    assert_eq!(w.prices, vec![102 * S, 103 * S]);
    assert_eq!(w.duration_ms, 500);
}

#[test]
fn telemetry_skips_work_without_subscribers() {
    let p = TelemetryPolicy::new(true);
    assert!(!p.should_publish(0));
    assert!(p.should_publish(1));
    let off = TelemetryPolicy::new(false);
    assert!(!off.should_publish(3));
    assert!(!off.is_enabled());
}

#[test]
fn slack_is_enabled_by_default() {
    assert!(default_slack_enabled());
}

#[test]
fn base_indicator_reports_full_sampling_buffer() {
    let mut b: BaseIndicator<u64> = BaseIndicator::new(2, 4);
    assert!(!b.is_sampling_buffer_full());
    b.sampling_buffer.add_value(1);
    b.sampling_buffer.add_value(2);
    assert!(b.is_sampling_buffer_full());
    assert_eq!(b.processing_buffer.capacity(), 4);
}
