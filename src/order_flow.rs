use std::collections::{HashMap, HashSet, VecDeque};
use vstd::prelude::*;

verus! {

/// Price units per book-level key: a level key is the price in hundredths.
pub const LEVEL_DIVISOR: u64 = 1000000;

/// Most trades kept for attributing consumed liquidity; older ones leave first.
pub const TRADE_BUFFER_LIMIT: usize = 10000;

/// A trade kept until the depth update whose interval it falls in.
#[derive(Clone, Copy, Debug, PartialEq, Eq, Structural)]
pub struct BufferedTrade {
    pub timestamp_ms: u64,
    pub price: u64,
    pub qty: u64,
    pub is_buyer_maker: bool,
}

/// Net change of resting quantity at one level between two snapshots, with the
/// quantity traded away at that level added back.
#[derive(Clone, Copy, Debug, PartialEq, Eq, Structural)]
pub struct LevelChange {
    pub key: u64,
    pub net_change: i128,
}

/// What one accepted, uncrossed depth update yields: the best quotes and the
/// per-level net changes of each side. Weighting the changes by distance from
/// the mid price gives the raw order-flow imbalance.
pub struct DepthFlow {
    pub best_bid: u64,
    pub best_ask: u64,
    pub bid_changes: Vec<LevelChange>,
    pub ask_changes: Vec<LevelChange>,
}

/// Order-book state for order-flow imbalance, plus the liquidity-adjusted
/// impact price.
pub struct DepthCalculator {
    prev_bid_levels: Vec<(u64, u64)>,
    prev_ask_levels: Vec<(u64, u64)>,
    last_update_id: u64,
    trade_buffer: VecDeque<BufferedTrade>,
    last_depth_ts_ms: u64,
    impact_price: u64,
    impact_qty: u64,
}

pub open spec fn level_key(price: u64) -> u64 {
    price / LEVEL_DIVISOR
}

/// The level map of a list of (price, quantity) entries; a later entry for the
/// same level replaces an earlier one.
pub open spec fn book_of(levels: Seq<(u64, u64)>) -> Map<u64, u64>
    decreases levels.len(),
{
    if levels.len() == 0 {
        Map::empty()
    } else {
        book_of(levels.drop_last()).insert(level_key(levels.last().0), levels.last().1)
    }
}

pub open spec fn qty_at(m: Map<u64, u64>, k: u64) -> int {
    if m.contains_key(k) { m[k] as int } else { 0 }
}

/// Whether a trade falls in the depth interval `(from_ms, to_ms]`.
pub open spec fn in_interval(t: BufferedTrade, from_ms: u64, to_ms: u64) -> bool {
    from_ms < t.timestamp_ms && t.timestamp_ms <= to_ms
}

/// Quantity traded at level `k` in `(from_ms, to_ms]` by trades whose maker
/// flag is `buyer_maker` (true: resting bids were consumed; false: asks).
pub open spec fn traded(
    trades: Seq<BufferedTrade>,
    from_ms: u64,
    to_ms: u64,
    buyer_maker: bool,
    k: u64,
) -> int
    decreases trades.len(),
{
    if trades.len() == 0 {
        0
    } else {
        let t = trades.last();
        traded(trades.drop_last(), from_ms, to_ms, buyer_maker, k) + if in_interval(t, from_ms, to_ms)
            && t.is_buyer_maker == buyer_maker && level_key(t.price) == k {
            t.qty as int
        } else {
            0
        }
    }
}

/// `(current − previous) + traded` at level `k`.
pub open spec fn net_change(
    prev: Map<u64, u64>,
    curr: Map<u64, u64>,
    trades: Seq<BufferedTrade>,
    from_ms: u64,
    to_ms: u64,
    buyer_maker: bool,
    k: u64,
) -> int {
    qty_at(curr, k) - qty_at(prev, k) + traded(trades, from_ms, to_ms, buyer_maker, k)
}

/// `out` lists, once each, exactly the levels among `seen` whose net change is
/// not zero, each with that change.
pub open spec fn changes_cover(out: Seq<LevelChange>, seen: Set<u64>, net: spec_fn(u64) -> int) -> bool {
    &&& forall|i: int|
        0 <= i < out.len() ==> seen.contains(#[trigger] out[i].key) && out[i].net_change == net(
            out[i].key,
        ) && out[i].net_change != 0
    &&& forall|i: int, j: int| 0 <= i < j < out.len() ==> out[i].key != out[j].key
    &&& forall|k: u64|
        #[trigger] seen.contains(k) && net(k) != 0 ==> exists|i: int|
            0 <= i < out.len() && out[i].key == k
}

/// `out` lists, once each, exactly the levels whose net change is not zero.
pub open spec fn changes_exact(out: Seq<LevelChange>, net: spec_fn(u64) -> int) -> bool {
    &&& forall|i: int|
        0 <= i < out.len() ==> (#[trigger] out[i]).net_change == net(out[i].key)
            && out[i].net_change != 0
    &&& forall|i: int, j: int| 0 <= i < j < out.len() ==> out[i].key != out[j].key
    &&& forall|k: u64| #[trigger] net(k) != 0 ==> exists|i: int| 0 <= i < out.len() && out[i].key == k
}

pub open spec fn max_price(levels: Seq<(u64, u64)>) -> u64
    decreases levels.len(),
{
    if levels.len() == 0 {
        0
    } else {
        let m = max_price(levels.drop_last());
        if levels.last().0 > m { levels.last().0 } else { m }
    }
}

pub open spec fn min_price(levels: Seq<(u64, u64)>) -> u64
    decreases levels.len(),
{
    if levels.len() == 0 {
        u64::MAX
    } else {
        let m = min_price(levels.drop_last());
        if levels.last().0 < m { levels.last().0 } else { m }
    }
}

/// Whether a snapshot has no usable quotes: no positive bid, no ask, or a
/// crossed book.
pub open spec fn no_quote(bids: Seq<(u64, u64)>, asks: Seq<(u64, u64)>) -> bool {
    max_price(bids) == 0 || asks.len() == 0 || max_price(bids) > min_price(asks)
}

/// Trades left in the buffer after a depth update at `to_ms`: those newer than
/// both the previous update and this one.
pub open spec fn kept_trades(trades: Seq<BufferedTrade>, from_ms: u64, to_ms: u64) -> Seq<BufferedTrade>
    decreases trades.len(),
{
    if trades.len() == 0 {
        trades
    } else {
        let rest = kept_trades(trades.drop_last(), from_ms, to_ms);
        let t = trades.last();
        if t.timestamp_ms > from_ms && t.timestamp_ms > to_ms {
            rest.push(t)
        } else {
            rest
        }
    }
}

pub open spec fn in_order(ascending: bool, a: u64, b: u64) -> bool {
    if ascending { a <= b } else { a >= b }
}

/// Levels ordered by price: ascending for asks, descending for bids.
pub open spec fn sorted_levels(s: Seq<(u64, u64)>, ascending: bool) -> bool {
    forall|i: int, j: int| 0 <= i < j < s.len() ==> in_order(ascending, #[trigger] s[i].0, #[trigger] s[j].0)
}

pub open spec fn total_qty(s: Seq<(u64, u64)>) -> int
    decreases s.len(),
{
    if s.len() == 0 { 0 } else { total_qty(s.drop_last()) + s.last().1 }
}

pub open spec fn min_int(a: int, b: int) -> int {
    if a <= b { a } else { b }
}

/// Notional paid for taking `qty` from the levels in the order given, each
/// level giving up at most its own quantity.
pub open spec fn walk_notional(s: Seq<(u64, u64)>, qty: int) -> int
    decreases s.len(),
{
    if s.len() == 0 {
        0
    } else {
        let take = min_int(s[0].1 as int, qty);
        s[0].0 * take + walk_notional(s.drop_first(), qty - take)
    }
}

/// The quantity both sides can fill: the target, clamped to the smaller side's
/// total liquidity.
pub open spec fn fill_qty(bids: Seq<(u64, u64)>, asks: Seq<(u64, u64)>, target_qty: u64) -> int {
    min_int(min_int(target_qty as int, total_qty(bids)), total_qty(asks))
}

/// Whether `s` holds the levels of `levels` in price order.
pub open spec fn is_price_ordering(s: Seq<(u64, u64)>, levels: Seq<(u64, u64)>, ascending: bool) -> bool {
    s.to_multiset() == levels.to_multiset() && sorted_levels(s, ascending)
}

/// The mean of the two sides' volume-weighted average fill prices for `qty`,
/// buying up the asks from the lowest price and selling into the bids from the
/// highest, given both sides in price order.
pub open spec fn impact_of(sorted_bids: Seq<(u64, u64)>, sorted_asks: Seq<(u64, u64)>, qty: int) -> int {
    (walk_notional(sorted_asks, qty) / qty + walk_notional(sorted_bids, qty) / qty) / 2
}

proof fn lemma_book_key(levels: Seq<(u64, u64)>, k: u64)
    requires
        book_of(levels).contains_key(k),
    ensures
        exists|i: int| 0 <= i < levels.len() && level_key(levels[i].0) == k,
    decreases levels.len(),
{
    if level_key(levels.last().0) == k {
        assert(level_key(levels[levels.len() - 1].0) == k);
    } else {
        lemma_book_key(levels.drop_last(), k);
        let i = choose|i: int| 0 <= i < levels.drop_last().len() && level_key(levels.drop_last()[i].0) == k;
        assert(level_key(levels[i].0) == k);
    }
}

proof fn lemma_traded_key(trades: Seq<BufferedTrade>, from_ms: u64, to_ms: u64, bm: bool, k: u64)
    requires
        traded(trades, from_ms, to_ms, bm, k) != 0,
    ensures
        exists|i: int| 0 <= i < trades.len() && level_key(trades[i].price) == k,
    decreases trades.len(),
{
    let t = trades.last();
    if in_interval(t, from_ms, to_ms) && t.is_buyer_maker == bm && level_key(t.price) == k {
        assert(level_key(trades[trades.len() - 1].price) == k);
    } else {
        lemma_traded_key(trades.drop_last(), from_ms, to_ms, bm, k);
        let i = choose|i: int|
            0 <= i < trades.drop_last().len() && level_key(trades.drop_last()[i].price) == k;
        assert(level_key(trades[i].price) == k);
    }
}

proof fn lemma_traded_bound(trades: Seq<BufferedTrade>, from_ms: u64, to_ms: u64, bm: bool, k: u64)
    ensures
        0 <= traded(trades, from_ms, to_ms, bm, k) <= trades.len() * 0xffff_ffff_ffff_ffff,
    decreases trades.len(),
{
    if trades.len() > 0 {
        lemma_traded_bound(trades.drop_last(), from_ms, to_ms, bm, k);
    }
}

fn build_book(levels: &Vec<(u64, u64)>) -> (m: HashMap<u64, u64>)
    ensures
        m@ == book_of(levels@),
{
    let mut m: HashMap<u64, u64> = HashMap::new();
    let mut i: usize = 0;
    while i < levels.len()
        invariant
            i <= levels@.len(),
            m@ == book_of(levels@.subrange(0, i as int)),
        decreases levels.len() - i,
    {
        let (p, q) = levels[i];
        m.insert(p / LEVEL_DIVISOR, q);
        assert(levels@.subrange(0, i + 1).drop_last() =~= levels@.subrange(0, i as int));
        i = i + 1;
    }
    assert(levels@.subrange(0, levels@.len() as int) =~= levels@);
    m
}

fn qty_or_zero(m: &HashMap<u64, u64>, k: u64) -> (r: u64)
    ensures
        r as int == qty_at(m@, k),
{
    match m.get(&k) {
        Some(q) => *q,
        None => 0,
    }
}

fn traded_or_zero(m: &HashMap<u64, u128>, k: u64) -> (r: u128)
    ensures
        m@.contains_key(k) ==> r == m@[k],
        !m@.contains_key(k) ==> r == 0,
{
    match m.get(&k) {
        Some(q) => *q,
        None => 0,
    }
}

fn best_bid(levels: &Vec<(u64, u64)>) -> (r: u64)
    ensures
        r == max_price(levels@),
{
    let mut best: u64 = 0;
    let mut i: usize = 0;
    while i < levels.len()
        invariant
            i <= levels@.len(),
            best == max_price(levels@.subrange(0, i as int)),
        decreases levels.len() - i,
    {
        assert(levels@.subrange(0, i + 1).drop_last() =~= levels@.subrange(0, i as int));
        if levels[i].0 > best {
            best = levels[i].0;
        }
        i = i + 1;
    }
    assert(levels@.subrange(0, levels@.len() as int) =~= levels@);
    best
}

fn best_ask(levels: &Vec<(u64, u64)>) -> (r: u64)
    ensures
        r == min_price(levels@),
{
    let mut best: u64 = u64::MAX;
    let mut i: usize = 0;
    while i < levels.len()
        invariant
            i <= levels@.len(),
            best == min_price(levels@.subrange(0, i as int)),
        decreases levels.len() - i,
    {
        assert(levels@.subrange(0, i + 1).drop_last() =~= levels@.subrange(0, i as int));
        if levels[i].0 < best {
            best = levels[i].0;
        }
        i = i + 1;
    }
    assert(levels@.subrange(0, levels@.len() as int) =~= levels@);
    best
}

pub open spec fn traded_at(m: Map<u64, u128>, k: u64) -> int {
    if m.contains_key(k) { m[k] as int } else { 0 }
}

/// Per-level traded quantity of the trades in `(from_ms, to_ms]` on one side.
fn slice_trades(trades: &VecDeque<BufferedTrade>, from_ms: u64, to_ms: u64, buyer_maker: bool) -> (m:
    HashMap<u64, u128>)
    requires
        trades@.len() <= TRADE_BUFFER_LIMIT,
    ensures
        forall|k: u64| #[trigger]
            traded_at(m@, k) == traded(trades@, from_ms, to_ms, buyer_maker, k),
{
    let mut m: HashMap<u64, u128> = HashMap::new();
    let mut i: usize = 0;
    while i < trades.len()
        invariant
            i <= trades@.len() <= TRADE_BUFFER_LIMIT,
            forall|k: u64| #[trigger]
                traded_at(m@, k) == traded(trades@.subrange(0, i as int), from_ms, to_ms, buyer_maker, k),
        decreases trades@.len() - i,
    {
        let t = trades[i];
        let ghost pre = trades@.subrange(0, i as int);
        let ghost m0 = m@;
        assert(trades@.subrange(0, i + 1).drop_last() =~= pre);
        assert(trades@.subrange(0, i + 1).last() == t);
        if from_ms < t.timestamp_ms && t.timestamp_ms <= to_ms && t.is_buyer_maker == buyer_maker {
            let k = t.price / LEVEL_DIVISOR;
            let cur = traded_or_zero(&m, k);
            proof {
                lemma_traded_bound(pre, from_ms, to_ms, buyer_maker, k);
                assert(traded_at(m@, k) == traded(pre, from_ms, to_ms, buyer_maker, k));
                assert(i * 0xffff_ffff_ffff_ffffint <= 10000 * 0xffff_ffff_ffff_ffffint) by (nonlinear_arith)
                    requires
                        i <= 10000,
                ;
            }
            m.insert(k, cur + t.qty as u128);
        }
        assert forall|k2: u64| #[trigger]
            traded_at(m@, k2) == traded(trades@.subrange(0, i + 1), from_ms, to_ms, buyer_maker, k2) by {
            assert(traded_at(m0, k2) == traded(pre, from_ms, to_ms, buyer_maker, k2));
        }
        i = i + 1;
    }
    assert(trades@.subrange(0, trades@.len() as int) =~= trades@);
    m
}

/// Records level `k` as seen, listing its net change when that is not zero.
fn consider_level(
    k: u64,
    out: &mut Vec<LevelChange>,
    seen: &mut HashSet<u64>,
    prev: &HashMap<u64, u64>,
    curr: &HashMap<u64, u64>,
    tm: &HashMap<u64, u128>,
    trades: Ghost<Seq<BufferedTrade>>,
    from_ms: u64,
    to_ms: u64,
    buyer_maker: bool,
    net: Ghost<spec_fn(u64) -> int>,
)
    requires
        trades@.len() <= TRADE_BUFFER_LIMIT,
        forall|k: u64| #[trigger]
            traded_at(tm@, k) == traded(trades@, from_ms, to_ms, buyer_maker, k),
        forall|k: u64| #[trigger]
            net@(k) == net_change(prev@, curr@, trades@, from_ms, to_ms, buyer_maker, k),
        changes_cover(old(out)@, old(seen)@, net@),
    ensures
        final(seen)@ == old(seen)@.insert(k),
        changes_cover(final(out)@, final(seen)@, net@),
{
    let ghost net = net@;
    if seen.contains(&k) {
        assert(seen@.insert(k) =~= seen@);
        return;
    }
    let c = qty_or_zero(curr, k);
    let p = qty_or_zero(prev, k);
    let t = traded_or_zero(tm, k);
    proof {
        lemma_traded_bound(trades@, from_ms, to_ms, buyer_maker, k);
        assert(traded_at(tm@, k) == traded(trades@, from_ms, to_ms, buyer_maker, k));
        assert(trades@.len() * 0xffff_ffff_ffff_ffffint <= 10000 * 0xffff_ffff_ffff_ffffint) by (nonlinear_arith)
            requires
                trades@.len() <= 10000,
        ;
    }
    let n: i128 = c as i128 - p as i128 + t as i128;
    assert(n == net(k));
    seen.insert(k);
    let ghost out0 = out@;
    if n != 0 {
        out.push(LevelChange { key: k, net_change: n });
        assert forall|k2: u64| #[trigger] seen@.contains(k2) && net(k2) != 0 implies exists|i: int|
            0 <= i < out@.len() && out@[i].key == k2 by {
            if k2 == k {
                assert(out@[out0.len() as int].key == k);
            } else {
                let i = choose|i: int| 0 <= i < out0.len() && out0[i].key == k2;
                assert(out@[i].key == k2);
            }
        }
    }
}

/// The nonzero net changes of one side, each level once.
fn level_changes(
    prev_levels: &Vec<(u64, u64)>,
    curr_levels: &Vec<(u64, u64)>,
    trades: &VecDeque<BufferedTrade>,
    from_ms: u64,
    to_ms: u64,
    buyer_maker: bool,
) -> (out: Vec<LevelChange>)
    requires
        trades@.len() <= TRADE_BUFFER_LIMIT,
    ensures
        changes_exact(
            out@,
            |k: u64|
                net_change(
                    book_of(prev_levels@),
                    book_of(curr_levels@),
                    trades@,
                    from_ms,
                    to_ms,
                    buyer_maker,
                    k,
                ),
        ),
{
    let prev = build_book(prev_levels);
    let curr = build_book(curr_levels);
    let tm = slice_trades(trades, from_ms, to_ms, buyer_maker);
    let ghost tr = trades@;
    let ghost net = |k: u64| net_change(prev@, curr@, tr, from_ms, to_ms, buyer_maker, k);
    let mut out: Vec<LevelChange> = Vec::new();
    let mut seen: HashSet<u64> = HashSet::new();
    let mut i: usize = 0;
    while i < prev_levels.len()
        invariant
            i <= prev_levels@.len(),
            tr.len() <= TRADE_BUFFER_LIMIT,
            forall|k: u64| #[trigger] traded_at(tm@, k) == traded(tr, from_ms, to_ms, buyer_maker, k),
            forall|k: u64| #[trigger] net(k) == net_change(prev@, curr@, tr, from_ms, to_ms, buyer_maker, k),
            changes_cover(out@, seen@, net),
            forall|j: int| 0 <= j < i ==> seen@.contains(#[trigger] level_key(prev_levels@[j].0)),
        decreases prev_levels.len() - i,
    {
        consider_level(prev_levels[i].0 / LEVEL_DIVISOR, &mut out, &mut seen, &prev, &curr, &tm, Ghost(tr), from_ms, to_ms, buyer_maker, Ghost(net));
        i = i + 1;
    }
    let mut i: usize = 0;
    while i < curr_levels.len()
        invariant
            i <= curr_levels@.len(),
            tr.len() <= TRADE_BUFFER_LIMIT,
            forall|k: u64| #[trigger] traded_at(tm@, k) == traded(tr, from_ms, to_ms, buyer_maker, k),
            forall|k: u64| #[trigger] net(k) == net_change(prev@, curr@, tr, from_ms, to_ms, buyer_maker, k),
            changes_cover(out@, seen@, net),
            forall|j: int| 0 <= j < prev_levels@.len() ==> seen@.contains(#[trigger] level_key(prev_levels@[j].0)),
            forall|j: int| 0 <= j < i ==> seen@.contains(#[trigger] level_key(curr_levels@[j].0)),
        decreases curr_levels.len() - i,
    {
        consider_level(curr_levels[i].0 / LEVEL_DIVISOR, &mut out, &mut seen, &prev, &curr, &tm, Ghost(tr), from_ms, to_ms, buyer_maker, Ghost(net));
        i = i + 1;
    }
    let mut i: usize = 0;
    while i < trades.len()
        invariant
            i <= tr.len(),
            tr == trades@,
            tr.len() <= TRADE_BUFFER_LIMIT,
            forall|k: u64| #[trigger] traded_at(tm@, k) == traded(tr, from_ms, to_ms, buyer_maker, k),
            forall|k: u64| #[trigger] net(k) == net_change(prev@, curr@, tr, from_ms, to_ms, buyer_maker, k),
            changes_cover(out@, seen@, net),
            forall|j: int| 0 <= j < prev_levels@.len() ==> seen@.contains(#[trigger] level_key(prev_levels@[j].0)),
            forall|j: int| 0 <= j < curr_levels@.len() ==> seen@.contains(#[trigger] level_key(curr_levels@[j].0)),
            forall|j: int| 0 <= j < i ==> seen@.contains(#[trigger] level_key(tr[j].price)),
        decreases tr.len() - i,
    {
        consider_level(trades[i].price / LEVEL_DIVISOR, &mut out, &mut seen, &prev, &curr, &tm, Ghost(tr), from_ms, to_ms, buyer_maker, Ghost(net));
        i = i + 1;
    }
    assert forall|k: u64| #[trigger] net(k) != 0 implies seen@.contains(k) by {
        if qty_at(curr@, k) != 0 {
            lemma_book_key(curr_levels@, k);
            let j = choose|j: int| 0 <= j < curr_levels@.len() && level_key(curr_levels@[j].0) == k;
        } else if qty_at(prev@, k) != 0 {
            lemma_book_key(prev_levels@, k);
            let j = choose|j: int| 0 <= j < prev_levels@.len() && level_key(prev_levels@[j].0) == k;
        } else {
            lemma_traded_key(tr, from_ms, to_ms, buyer_maker, k);
            let j = choose|j: int| 0 <= j < tr.len() && level_key(tr[j].price) == k;
        }
    }
    assert(prev@ == book_of(prev_levels@) && curr@ == book_of(curr_levels@));
    out
}

proof fn lemma_kept_len(trades: Seq<BufferedTrade>, from_ms: u64, to_ms: u64)
    ensures
        kept_trades(trades, from_ms, to_ms).len() <= trades.len(),
    decreases trades.len(),
{
    if trades.len() > 0 {
        lemma_kept_len(trades.drop_last(), from_ms, to_ms);
    }
}

fn keep_trades(trades: &VecDeque<BufferedTrade>, from_ms: u64, to_ms: u64) -> (r: VecDeque<BufferedTrade>)
    ensures
        r@ == kept_trades(trades@, from_ms, to_ms),
{
    let mut r: VecDeque<BufferedTrade> = VecDeque::new();
    let mut i: usize = 0;
    while i < trades.len()
        invariant
            i <= trades@.len(),
            r@ == kept_trades(trades@.subrange(0, i as int), from_ms, to_ms),
        decreases trades@.len() - i,
    {
        let t = trades[i];
        assert(trades@.subrange(0, i + 1).drop_last() =~= trades@.subrange(0, i as int));
        if t.timestamp_ms > from_ms && t.timestamp_ms > to_ms {
            r.push_back(t);
        }
        i = i + 1;
    }
    assert(trades@.subrange(0, trades@.len() as int) =~= trades@);
    r
}

fn copy_levels(v: &Vec<(u64, u64)>) -> (r: Vec<(u64, u64)>)
    ensures
        r@ == v@,
{
    let mut r: Vec<(u64, u64)> = Vec::new();
    let mut i: usize = 0;
    while i < v.len()
        invariant
            i <= v@.len(),
            r@ == v@.subrange(0, i as int),
        decreases v.len() - i,
    {
        r.push(v[i]);
        i = i + 1;
        assert(r@ =~= v@.subrange(0, i as int));
    }
    assert(v@.subrange(0, v@.len() as int) =~= v@);
    r
}

fn sum_qty(levels: &Vec<(u64, u64)>) -> (r: u128)
    ensures
        r == total_qty(levels@),
{
    let mut t: u128 = 0;
    let mut i: usize = 0;
    while i < levels.len()
        invariant
            i <= levels@.len(),
            t == total_qty(levels@.subrange(0, i as int)),
            t <= i * 0xffff_ffff_ffff_ffffint,
        decreases levels.len() - i,
    {
        assert(levels@.subrange(0, i + 1).drop_last() =~= levels@.subrange(0, i as int));
        assert((i + 1) * 0xffff_ffff_ffff_ffffint <= 0x1_0000_0000_0000_0000int * 0xffff_ffff_ffff_ffffint)
            by (nonlinear_arith)
            requires
                i < 0x1_0000_0000_0000_0000int,
        ;
        t = t + levels[i].1 as u128;
        i = i + 1;
    }
    assert(levels@.subrange(0, levels@.len() as int) =~= levels@);
    t
}

fn ordered(ascending: bool, a: u64, b: u64) -> (r: bool)
    ensures
        r == in_order(ascending, a, b),
{
    if ascending {
        a <= b
    } else {
        a >= b
    }
}

/// The levels in price order; levels of equal price keep their relative order.
fn sort_levels(levels: &Vec<(u64, u64)>, ascending: bool) -> (r: Vec<(u64, u64)>)
    ensures
        is_price_ordering(r@, levels@, ascending),
{
    let mut r: Vec<(u64, u64)> = Vec::new();
    let mut i: usize = 0;
    assert(r@ =~= levels@.subrange(0, 0));
    while i < levels.len()
        invariant
            i <= levels@.len(),
            r@.to_multiset() == levels@.subrange(0, i as int).to_multiset(),
            sorted_levels(r@, ascending),
        decreases levels.len() - i,
    {
        let x = levels[i];
        let mut pos: usize = 0;
        while pos < r.len() && ordered(ascending, r[pos].0, x.0)
            invariant
                pos <= r@.len(),
                forall|j: int| 0 <= j < pos ==> in_order(ascending, #[trigger] r@[j].0, x.0),
            decreases r@.len() - pos,
        {
            pos = pos + 1;
        }
        let ghost r0 = r@;
        r.insert(pos, x);
        assert(levels@.subrange(0, i + 1) =~= levels@.subrange(0, i as int).push(x));
        assert(r@ == r0.insert(pos as int, x));
        proof {
            vstd::seq_lib::to_multiset_insert(r0, pos as int, x);
            vstd::seq_lib::to_multiset_build(levels@.subrange(0, i as int), x);
        }
        assert(r@.to_multiset() == r0.to_multiset().insert(x));
        assert(levels@.subrange(0, i as int).push(x).to_multiset() == levels@.subrange(
            0,
            i as int,
        ).to_multiset().insert(x));
        assert forall|a: int, b: int| 0 <= a < b < r@.len() implies in_order(
            ascending,
            #[trigger] r@[a].0,
            #[trigger] r@[b].0,
        ) by {
            if b < pos {
            } else if b == pos {
            } else if a < pos {
                assert(in_order(ascending, r0[a].0, r0[b - 1].0));
            } else if a == pos {
                assert(!in_order(ascending, r0[pos as int].0, x.0));
                if pos + 1 < b {
                    assert(in_order(ascending, r0[pos as int].0, r0[b - 1].0));
                }
            } else {
                assert(in_order(ascending, r0[a - 1].0, r0[b - 1].0));
            }
        }
        i = i + 1;
    }
    assert(levels@.subrange(0, levels@.len() as int) =~= levels@);
    r
}

/// Notional of taking `qty` from `s` in order, with `qty` at most its total.
fn take_notional(s: &Vec<(u64, u64)>, qty: u64) -> (r: u128)
    ensures
        r == walk_notional(s@, qty as int),
        r <= qty * 0xffff_ffff_ffff_ffffint,
{
    let mut notional: u128 = 0;
    let mut remaining: u64 = qty;
    let mut i: usize = 0;
    assert(s@.subrange(0, s@.len() as int) =~= s@);
    while i < s.len()
        invariant
            i <= s@.len(),
            remaining <= qty,
            notional + walk_notional(s@.subrange(i as int, s@.len() as int), remaining as int)
                == walk_notional(s@, qty as int),
            notional <= (qty - remaining) * 0xffff_ffff_ffff_ffffint,
        decreases s.len() - i,
    {
        let (p, q) = s[i];
        let take: u64 = if q < remaining { q } else { remaining };
        assert(s@.subrange(i as int, s@.len() as int).drop_first() =~= s@.subrange(i + 1, s@.len() as int));
        assert(p * take <= take * 0xffff_ffff_ffff_ffffint) by (nonlinear_arith)
            requires
                p <= 0xffff_ffff_ffff_ffffint,
                0 <= take,
        ;
        assert((qty - remaining) * 0xffff_ffff_ffff_ffffint + take * 0xffff_ffff_ffff_ffffint == (qty
            - remaining + take) * 0xffff_ffff_ffff_ffffint) by (nonlinear_arith);
        assert((qty - remaining + take) * 0xffff_ffff_ffff_ffffint <= 0xffff_ffff_ffff_ffffint
            * 0xffff_ffff_ffff_ffffint) by (nonlinear_arith)
            requires
                qty - remaining + take <= 0xffff_ffff_ffff_ffffint,
                0 <= qty - remaining + take,
        ;
        notional = notional + (p as u128) * (take as u128);
        remaining = remaining - take;
        i = i + 1;
    }
    assert(s@.subrange(s@.len() as int, s@.len() as int) =~= Seq::<(u64, u64)>::empty());
    notional
}

impl DepthCalculator {
    /// The bid levels of the last stored snapshot, as received.
    pub closed spec fn spec_prev_bid_levels(&self) -> Seq<(u64, u64)> {
        self.prev_bid_levels@
    }

    /// The ask levels of the last stored snapshot, as received.
    pub closed spec fn spec_prev_ask_levels(&self) -> Seq<(u64, u64)> {
        self.prev_ask_levels@
    }

    pub closed spec fn spec_last_update_id(&self) -> u64 {
        self.last_update_id
    }

    pub closed spec fn spec_last_depth_ts_ms(&self) -> u64 {
        self.last_depth_ts_ms
    }

    /// The buffered trades, oldest first.
    pub closed spec fn spec_trades(&self) -> Seq<BufferedTrade> {
        self.trade_buffer@
    }

    pub closed spec fn spec_impact_price(&self) -> u64 {
        self.impact_price
    }

    pub closed spec fn spec_impact_qty(&self) -> u64 {
        self.impact_qty
    }

    pub closed spec fn wf(&self) -> bool {
        self.trade_buffer@.len() <= TRADE_BUFFER_LIMIT
    }

    pub fn new() -> (r: Self)
        ensures
            r.wf(),
            r.spec_prev_bid_levels().len() == 0,
            r.spec_prev_ask_levels().len() == 0,
            r.spec_last_update_id() == 0,
            r.spec_last_depth_ts_ms() == 0,
            r.spec_trades().len() == 0,
            r.spec_impact_price() == 0,
            r.spec_impact_qty() == 0,
    {
        DepthCalculator {
            prev_bid_levels: Vec::new(),
            prev_ask_levels: Vec::new(),
            last_update_id: 0,
            trade_buffer: VecDeque::new(),
            last_depth_ts_ms: 0,
            impact_price: 0,
            impact_qty: 0,
        }
    }

    /// Buffers a trade for attribution to the next depth update, dropping the
    /// oldest buffered trade beyond the buffer limit.
    pub fn add_trade(&mut self, timestamp_ms: u64, price: u64, qty: u64, is_buyer_maker: bool)
        requires
            old(self).wf(),
        ensures
            final(self).wf(),
            final(self).spec_trades() == ({
                let s = old(self).spec_trades().push(
                    BufferedTrade { timestamp_ms, price, qty, is_buyer_maker },
                );
                if s.len() > TRADE_BUFFER_LIMIT { s.drop_first() } else { s }
            }),
            final(self).spec_prev_bid_levels() == old(self).spec_prev_bid_levels(),
            final(self).spec_prev_ask_levels() == old(self).spec_prev_ask_levels(),
            final(self).spec_last_update_id() == old(self).spec_last_update_id(),
            final(self).spec_last_depth_ts_ms() == old(self).spec_last_depth_ts_ms(),
            final(self).spec_impact_price() == old(self).spec_impact_price(),
            final(self).spec_impact_qty() == old(self).spec_impact_qty(),
    {
        self.trade_buffer.push_back(BufferedTrade { timestamp_ms, price, qty, is_buyer_maker });
        if self.trade_buffer.len() > TRADE_BUFFER_LIMIT {
            let ghost s = self.trade_buffer@;
            self.trade_buffer.pop_front();
            assert(self.trade_buffer@ =~= s.drop_first());
        }
    }

    /// Processes one depth snapshot. An update id not above the last accepted
    /// one is ignored. Otherwise the snapshot is stored; when it has no usable
    /// quotes, or when no earlier bid book was stored (warm-up), nothing is
    /// returned; else the trades in `(previous update, trans_time_ms]` are
    /// attributed to their levels and the per-level net changes of both sides
    /// are returned, with later trades kept for the next update.
    pub fn update_depth(
        &mut self,
        update_id: u64,
        trans_time_ms: u64,
        bids: &Vec<(u64, u64)>,
        asks: &Vec<(u64, u64)>,
    ) -> (r: Option<DepthFlow>)
        requires
            old(self).wf(),
        ensures
            final(self).wf(),
            final(self).spec_impact_price() == old(self).spec_impact_price(),
            final(self).spec_impact_qty() == old(self).spec_impact_qty(),
            update_id <= old(self).spec_last_update_id() ==> {
                &&& r.is_none()
                &&& final(self).spec_prev_bid_levels() == old(self).spec_prev_bid_levels()
                &&& final(self).spec_prev_ask_levels() == old(self).spec_prev_ask_levels()
                &&& final(self).spec_last_update_id() == old(self).spec_last_update_id()
                &&& final(self).spec_last_depth_ts_ms() == old(self).spec_last_depth_ts_ms()
                &&& final(self).spec_trades() == old(self).spec_trades()
            },
            update_id > old(self).spec_last_update_id() ==> {
                &&& final(self).spec_last_update_id() == update_id
                &&& final(self).spec_prev_bid_levels() == bids@
                &&& final(self).spec_prev_ask_levels() == asks@
                &&& final(self).spec_last_depth_ts_ms() == trans_time_ms
            },
            update_id > old(self).spec_last_update_id() && (no_quote(bids@, asks@)
                || old(self).spec_prev_bid_levels().len() == 0) ==> {
                &&& r.is_none()
                &&& final(self).spec_trades() == old(self).spec_trades()
            },
            update_id > old(self).spec_last_update_id() && !no_quote(bids@, asks@)
                && old(self).spec_prev_bid_levels().len() > 0 ==> {
                &&& r.is_some()
                &&& r.unwrap().best_bid == max_price(bids@)
                &&& r.unwrap().best_ask == min_price(asks@)
                &&& changes_exact(
                    r.unwrap().bid_changes@,
                    |k: u64|
                        net_change(
                            book_of(old(self).spec_prev_bid_levels()),
                            book_of(bids@),
                            old(self).spec_trades(),
                            old(self).spec_last_depth_ts_ms(),
                            trans_time_ms,
                            true,
                            k,
                        ),
                )
                &&& changes_exact(
                    r.unwrap().ask_changes@,
                    |k: u64|
                        net_change(
                            book_of(old(self).spec_prev_ask_levels()),
                            book_of(asks@),
                            old(self).spec_trades(),
                            old(self).spec_last_depth_ts_ms(),
                            trans_time_ms,
                            false,
                            k,
                        ),
                )
                &&& final(self).spec_trades() == kept_trades(
                    old(self).spec_trades(),
                    old(self).spec_last_depth_ts_ms(),
                    trans_time_ms,
                )
            },
    {
        if update_id <= self.last_update_id {
            return None;
        }
        self.last_update_id = update_id;
        let bb = best_bid(bids);
        let ba = best_ask(asks);
        if bb == 0 || asks.len() == 0 || bb > ba || self.prev_bid_levels.len() == 0 {
            self.prev_bid_levels = copy_levels(bids);
            self.prev_ask_levels = copy_levels(asks);
            self.last_depth_ts_ms = trans_time_ms;
            return None;
        }
        let bid_changes = level_changes(
            &self.prev_bid_levels,
            bids,
            &self.trade_buffer,
            self.last_depth_ts_ms,
            trans_time_ms,
            true,
        );
        let ask_changes = level_changes(
            &self.prev_ask_levels,
            asks,
            &self.trade_buffer,
            self.last_depth_ts_ms,
            trans_time_ms,
            false,
        );
        let kept = keep_trades(&self.trade_buffer, self.last_depth_ts_ms, trans_time_ms);
        proof {
            lemma_kept_len(self.trade_buffer@, self.last_depth_ts_ms, trans_time_ms);
        }
        self.trade_buffer = kept;
        self.prev_bid_levels = copy_levels(bids);
        self.prev_ask_levels = copy_levels(asks);
        self.last_depth_ts_ms = trans_time_ms;
        Some(DepthFlow { best_bid: bb, best_ask: ba, bid_changes, ask_changes })
    }

    /// The quantity the last impact price was computed for.
    pub fn get_impact_qty(&self) -> (r: u64)
        ensures
            r == self.spec_impact_qty(),
    {
        self.impact_qty
    }

    /// The last computed impact price.
    pub fn get_impact_price(&self) -> (r: u64)
        ensures
            r == self.spec_impact_price(),
    {
        self.impact_price
    }
    /// Computes the impact price for `target_qty`, clamped to the smaller side's
    /// total quantity: the mean of the volume-weighted prices of buying that
    /// quantity from the asks (lowest first) and selling it into the bids
    /// (highest first). With nothing to fill, the stored values stay.
    pub fn calculate_impact_price(&mut self, bids: &Vec<(u64, u64)>, asks: &Vec<(u64, u64)>, target_qty: u64)
        requires
            old(self).wf(),
        ensures
            final(self).wf(),
            final(self).spec_prev_bid_levels() == old(self).spec_prev_bid_levels(),
            final(self).spec_prev_ask_levels() == old(self).spec_prev_ask_levels(),
            final(self).spec_last_update_id() == old(self).spec_last_update_id(),
            final(self).spec_last_depth_ts_ms() == old(self).spec_last_depth_ts_ms(),
            final(self).spec_trades() == old(self).spec_trades(),
            fill_qty(bids@, asks@, target_qty) == 0 ==> final(self).spec_impact_price() == old(
                self,
            ).spec_impact_price() && final(self).spec_impact_qty() == old(self).spec_impact_qty(),
            fill_qty(bids@, asks@, target_qty) > 0 ==> {
                &&& final(self).spec_impact_qty() == fill_qty(bids@, asks@, target_qty)
                &&& exists|sb: Seq<(u64, u64)>, sa: Seq<(u64, u64)>|
                    is_price_ordering(sb, bids@, false) && is_price_ordering(sa, asks@, true)
                        && final(self).spec_impact_price() == #[trigger] impact_of(
                        sb,
                        sa,
                        fill_qty(bids@, asks@, target_qty),
                    )
            },
    {
        let bid_total = sum_qty(bids);
        let ask_total = sum_qty(asks);
        let mut qty: u64 = target_qty;
        if bid_total < qty as u128 {
            qty = bid_total as u64;
        }
        if ask_total < qty as u128 {
            qty = ask_total as u64;
        }
        if qty == 0 {
            return;
        }
        let sorted_asks = sort_levels(asks, true);
        let sorted_bids = sort_levels(bids, false);
        let buy = take_notional(&sorted_asks, qty);
        let sell = take_notional(&sorted_bids, qty);
        let buy_avg = buy / (qty as u128);
        let sell_avg = sell / (qty as u128);
        assert(buy_avg <= 0xffff_ffff_ffff_ffffint) by (nonlinear_arith)
            requires
                buy <= qty * 0xffff_ffff_ffff_ffffint,
                qty > 0,
                buy_avg == buy as int / qty as int,
        ;
        assert(sell_avg <= 0xffff_ffff_ffff_ffffint) by (nonlinear_arith)
            requires
                sell <= qty * 0xffff_ffff_ffff_ffffint,
                qty > 0,
                sell_avg == sell as int / qty as int,
        ;
        self.impact_price = ((buy_avg + sell_avg) / 2) as u64;
        self.impact_qty = qty;
        assert(impact_of(sorted_bids@, sorted_asks@, qty as int) == self.impact_price);
    }
}


/// A target beyond either side's total liquidity is clamped to the smaller
/// side's total.
pub proof fn lemma_fill_clamps(bids: Seq<(u64, u64)>, asks: Seq<(u64, u64)>, target_qty: u64)
    requires
        target_qty > total_qty(bids) || target_qty > total_qty(asks),
    ensures
        fill_qty(bids, asks, target_qty) == min_int(total_qty(bids), total_qty(asks)),
{
}


/// Raw order-flow values stamped with their depth-update time, kept for
/// `window_ms`: recording a value drops the entries stamped more than
/// `window_ms` before it, oldest first.
pub struct OfiBuffer<T> {
    entries: VecDeque<(u64, T)>,
    window_ms: u64,
}

/// `s` without its leading entries stamped before `now_ms − window_ms`.
pub open spec fn prune_before<T>(s: Seq<(u64, T)>, now_ms: u64, window_ms: u64) -> Seq<(u64, T)>
    decreases s.len(),
{
    if s.len() > 0 && s[0].0 + window_ms < now_ms {
        prune_before(s.drop_first(), now_ms, window_ms)
    } else {
        s
    }
}

impl<T: Copy> OfiBuffer<T> {
    /// The entries held, oldest first.
    pub closed spec fn view(&self) -> Seq<(u64, T)> {
        self.entries@
    }

    pub closed spec fn spec_window_ms(&self) -> u64 {
        self.window_ms
    }

    pub fn new(window_ms: u64) -> (r: Self)
        ensures
            r.view().len() == 0,
            r.spec_window_ms() == window_ms,
    {
        OfiBuffer { entries: VecDeque::new(), window_ms }
    }

    /// Appends `value` stamped `ts_ms`, then drops the leading entries older
    /// than the window before `ts_ms`.
    pub fn record(&mut self, ts_ms: u64, value: T)
        ensures
            final(self).spec_window_ms() == old(self).spec_window_ms(),
            final(self).view() == prune_before(
                old(self).view().push((ts_ms, value)),
                ts_ms,
                old(self).spec_window_ms(),
            ),
    {
        self.entries.push_back((ts_ms, value));
        let ghost s0 = self.entries@;
        let mut scanning = true;
        while scanning && self.entries.len() > 0
            invariant
                prune_before(self.entries@, ts_ms, self.window_ms) == prune_before(s0, ts_ms, self.window_ms),
                !scanning ==> prune_before(self.entries@, ts_ms, self.window_ms) == self.entries@,
                self.window_ms == old(self).window_ms,
            decreases self.entries@.len() + if scanning { 1int } else { 0int },
        {
            if (self.entries[0].0 as u128) + (self.window_ms as u128) < ts_ms as u128 {
                let ghost before = self.entries@;
                self.entries.pop_front();
                assert(self.entries@ =~= before.drop_first());
            } else {
                scanning = false;
            }
        }
    }

    /// The entries held, oldest first.
    pub fn entries(&self) -> (r: Vec<(u64, T)>)
        ensures
            r@ == self.view(),
    {
        let mut out: Vec<(u64, T)> = Vec::new();
        let mut i: usize = 0;
        while i < self.entries.len()
            invariant
                i <= self.entries@.len(),
                out@ == self.entries@.subrange(0, i as int),
            decreases self.entries@.len() - i,
        {
            out.push(self.entries[i]);
            i = i + 1;
            assert(out@ =~= self.entries@.subrange(0, i as int));
        }
        assert(out@ =~= self.entries@);
        out
    }

    /// The stamp of the newest entry, if any.
    pub fn latest_ts(&self) -> (r: Option<u64>)
        ensures
            self.view().len() == 0 ==> r.is_none(),
            self.view().len() > 0 ==> r == Some(self.view().last().0),
    {
        let n = self.entries.len();
        if n == 0 {
            None
        } else {
            Some(self.entries[n - 1].0)
        }
    }
}

} // verus!
