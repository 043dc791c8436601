use volatility_monitor::fixed::PRICE_SCALE;
use volatility_monitor::order_flow::{DepthCalculator, LevelChange, OfiBuffer};

const S: u64 = PRICE_SCALE;

fn cents(c: u64) -> u64 {
    c * (S / 100)
}

#[test]
fn first_depth_update_is_warm_up() {
    let mut d = DepthCalculator::new();
    let bids = vec![(cents(10000), 2 * S)];
    let asks = vec![(cents(10010), 3 * S)];
    assert!(d.update_depth(1, 1000, &bids, &asks).is_none());
    // The same id again is a duplicate.
    assert!(d.update_depth(1, 1100, &bids, &asks).is_none());
    // An older id is out of order.
    assert!(d.update_depth(0, 1200, &bids, &asks).is_none());
    assert!(d.update_depth(2, 1300, &bids, &asks).is_some());
}

#[test]
fn consumed_liquidity_is_added_back() {
    let mut d = DepthCalculator::new();
    let asks = vec![(cents(10010), 3 * S)];
    assert!(d.update_depth(1, 1000, &vec![(cents(10000), 2 * S)], &asks).is_none());
    // A seller hit one unit of the bid at 100.00.
    d.add_trade(1500, cents(10000), S, true);
    let flow = d.update_depth(2, 2000, &vec![(cents(10000), S)], &asks).unwrap();
    assert_eq!(flow.best_bid, cents(10000));
    assert_eq!(flow.best_ask, cents(10010));
    assert!(flow.bid_changes.is_empty());
    assert!(flow.ask_changes.is_empty());
}

#[test]
fn level_changes_cover_both_books() {
    let mut d = DepthCalculator::new();
    assert!(d.update_depth(1, 1000, &vec![(cents(10000), S)], &vec![(cents(10010), 3 * S)]).is_none());
    let flow = d
        .update_depth(2, 2000, &vec![(cents(10000), 4 * S), (cents(9999), S)], &vec![(cents(10010), 2 * S)])
        .unwrap();
    assert_eq!(
        flow.bid_changes,
        vec![
            LevelChange { key: 10000, net_change: 3 * S as i128 },
            LevelChange { key: 9999, net_change: S as i128 },
        ]
    );
    assert_eq!(flow.ask_changes, vec![LevelChange { key: 10010, net_change: -(S as i128) }]);
}

#[test]
fn trades_after_the_update_wait_for_the_next() {
    let mut d = DepthCalculator::new();
    let asks = vec![(cents(10010), 3 * S)];
    assert!(d.update_depth(1, 1000, &vec![(cents(10000), 2 * S)], &asks).is_none());
    d.add_trade(2500, cents(10010), S, false);
    let flow = d.update_depth(2, 2000, &vec![(cents(10000), 2 * S)], &asks).unwrap();
    assert!(flow.ask_changes.is_empty());
    let flow = d.update_depth(3, 3000, &vec![(cents(10000), 2 * S)], &vec![(cents(10010), 2 * S)]).unwrap();
    // One unit left the ask book and one unit was bought there: no net change.
    assert!(flow.ask_changes.is_empty());
    assert!(flow.bid_changes.is_empty());
}

#[test]
fn crossed_book_gives_no_flow() {
    let mut d = DepthCalculator::new();
    assert!(d.update_depth(1, 1000, &vec![(cents(10000), S)], &vec![(cents(10010), S)]).is_none());
    assert!(d.update_depth(2, 2000, &vec![(cents(10100), S)], &vec![(cents(10000), S)]).is_none());
    assert!(d.update_depth(3, 3000, &vec![(cents(10000), S)], &vec![]).is_none());
    assert!(d.update_depth(4, 4000, &vec![(cents(10000), S)], &vec![(cents(10010), S)]).is_some());
}

#[test]
fn impact_price_clamps_to_smaller_side() {
    let mut d = DepthCalculator::new();
    let bids = vec![(100 * S, S), (99 * S, 2 * S)];
    let asks = vec![(102 * S, 5 * S), (101 * S, S)];
    d.calculate_impact_price(&bids, &asks, 10 * S);
    assert_eq!(d.get_impact_qty(), 3 * S);
    assert_eq!(d.get_impact_price(), 10049999999);
}

#[test]
fn impact_price_within_liquidity() {
    let mut d = DepthCalculator::new();
    let bids = vec![(99 * S, 5 * S), (100 * S, S)];
    let asks = vec![(101 * S, S), (102 * S, 5 * S)];
    d.calculate_impact_price(&bids, &asks, S);
    assert_eq!(d.get_impact_qty(), S);
    assert_eq!(d.get_impact_price(), (101 * S + 100 * S) / 2);
}

#[test]
fn impact_price_without_liquidity_keeps_previous() {
    let mut d = DepthCalculator::new();
    d.calculate_impact_price(&vec![(100 * S, S)], &vec![(101 * S, S)], S);
    let before = d.get_impact_price();
    d.calculate_impact_price(&vec![], &vec![(101 * S, S)], S);
    assert_eq!(d.get_impact_price(), before);
    assert_eq!(d.get_impact_qty(), S);
}

#[test]
fn trade_buffer_keeps_newest() {
    let mut d = DepthCalculator::new();
    for i in 0..10_001u64 {
        d.add_trade(i, 100 * S, 1, true);
    }
    assert!(d.update_depth(1, 0, &vec![(100 * S, S)], &vec![(101 * S, S)]).is_none());
    // Trade 0 was dropped; trades 1..=10000 remain. All at or before 20000 are attributed.
    let flow = d.update_depth(2, 20_000, &vec![(100 * S, S)], &vec![(101 * S, S)]).unwrap();
    assert_eq!(flow.bid_changes, vec![LevelChange { key: 10000, net_change: 10_000 }]);
}

#[test]
fn ofi_buffer_drops_entries_out_of_window() {
    let mut b: OfiBuffer<f64> = OfiBuffer::new(1500);
    b.record(1000, 1.0);
    b.record(2000, 2.0);
    b.record(2500, 3.0);
    assert_eq!(b.entries(), vec![(1000, 1.0), (2000, 2.0), (2500, 3.0)]);
    b.record(2600, 4.0);
    assert_eq!(b.entries(), vec![(2000, 2.0), (2500, 3.0), (2600, 4.0)]);
    assert_eq!(b.latest_ts(), Some(2600));
}
