use std::collections::VecDeque;
use vstd::prelude::*;

use crate::ring_buffer::bounded_push;

verus! {

/// A one-second OHLCV candle. Prices are fixed-point units; the volume sum
/// saturates at `u128::MAX`.
#[derive(Clone, Copy, Debug, PartialEq, Eq, Structural)]
pub struct Kline {
    pub open_time: i64,
    pub open: u64,
    pub high: u64,
    pub low: u64,
    pub close: u64,
    pub volume: u128,
}

pub open spec fn new_kline(time_sec: i64, price: u64, volume: u64) -> Kline {
    Kline { open_time: time_sec, open: price, high: price, low: price, close: price, volume: volume as u128 }
}

pub open spec fn updated_kline(k: Kline, price: u64, volume: u64) -> Kline {
    Kline {
        close: price,
        high: if price > k.high { price } else { k.high },
        low: if price < k.low { price } else { k.low },
        volume: if k.volume + volume > u128::MAX { u128::MAX } else { (k.volume + volume) as u128 },
        ..k
    }
}

/// The absolute body of a candle, `|close − open|`.
pub open spec fn body(k: Kline) -> int {
    if k.close >= k.open { k.close - k.open } else { k.open - k.close }
}

impl Kline {
    pub fn new(time_sec: i64, price: u64, volume: u64) -> (r: Self)
        ensures
            r == new_kline(time_sec, price, volume),
    {
        Kline { open_time: time_sec, open: price, high: price, low: price, close: price, volume: volume as u128 }
    }

    /// Folds a trade into the candle.
    pub fn update(&mut self, price: u64, volume: u64)
        ensures
            *final(self) == updated_kline(*old(self), price, volume),
    {
        self.close = price;
        if price > self.high {
            self.high = price;
        }
        if price < self.low {
            self.low = price;
        }
        self.volume = self.volume.saturating_add(volume as u128);
    }

    /// The signed body, `close − open`.
    pub fn change(&self) -> (r: i128)
        ensures
            r == self.close - self.open,
    {
        self.close as i128 - self.open as i128
    }
}

/// Synthesizes one-second candles from trades and keeps the most recent
/// completed ones.
pub struct KlineManager {
    current: Option<Kline>,
    history: VecDeque<Kline>,
    history_limit: usize,
}

/// The candles of `s` that opened at or after `cutoff`, in order.
pub open spec fn opened_since(s: Seq<Kline>, cutoff: int) -> Seq<Kline>
    decreases s.len(),
{
    if s.len() == 0 {
        s
    } else {
        let rest = opened_since(s.drop_last(), cutoff);
        if s.last().open_time >= cutoff {
            rest.push(s.last())
        } else {
            rest
        }
    }
}

pub open spec fn current_seq(c: Option<Kline>) -> Seq<Kline> {
    match c {
        Some(k) => seq![k],
        None => Seq::empty(),
    }
}

/// Whether `k` is the last candle of `s` with the largest body.
pub open spec fn is_last_max(s: Seq<Kline>, k: Kline) -> bool {
    exists|j: int|
        0 <= j < s.len() && s[j] == k && (forall|i: int| 0 <= i < s.len() ==> body(#[trigger] s[i]) <= body(k))
            && (forall|i: int| j < i < s.len() ==> body(#[trigger] s[i]) < body(k))
}

impl KlineManager {
    /// The candle in progress, if any.
    pub closed spec fn spec_current(&self) -> Option<Kline> {
        self.current
    }

    /// The archived candles, oldest first.
    pub closed spec fn spec_history(&self) -> Seq<Kline> {
        self.history@
    }

    pub fn current(&self) -> (r: Option<Kline>)
        ensures
            r == self.spec_current(),
    {
        self.current
    }

    pub fn history(&self) -> (r: &VecDeque<Kline>)
        ensures
            r@ == self.spec_history(),
    {
        &self.history
    }

    pub closed spec fn spec_history_limit(&self) -> nat {
        self.history_limit as nat
    }

    pub closed spec fn wf(&self) -> bool {
        self.history@.len() <= self.history_limit
    }

    pub fn new(history_limit: usize) -> (r: Self)
        ensures
            r.wf(),
            r.spec_current().is_none(),
            r.spec_history().len() == 0,
            r.spec_history_limit() == history_limit,
    {
        KlineManager { current: None, history: VecDeque::new(), history_limit }
    }

    /// Folds a trade made in second `trade_time_sec` into the candles. A trade
    /// in the current candle's second updates it; a trade in another second
    /// archives the current candle (returned) and opens a new one.
    pub fn update(&mut self, price: u64, volume: u64, trade_time_sec: i64) -> (r: Option<Kline>)
        requires
            old(self).wf(),
        ensures
            final(self).wf(),
            final(self).spec_history_limit() == old(self).spec_history_limit(),
            match old(self).spec_current() {
                Some(k) => if k.open_time == trade_time_sec {
                    &&& r.is_none()
                    &&& final(self).spec_current() == Some(updated_kline(k, price, volume))
                    &&& final(self).spec_history() == old(self).spec_history()
                } else {
                    &&& r == Some(k)
                    &&& final(self).spec_current() == Some(new_kline(trade_time_sec, price, volume))
                    &&& final(self).spec_history() == bounded_push(
                        old(self).spec_history(),
                        k,
                        old(self).spec_history_limit(),
                    )
                },
                None => {
                    &&& r.is_none()
                    &&& final(self).spec_current() == Some(new_kline(trade_time_sec, price, volume))
                    &&& final(self).spec_history() == old(self).spec_history()
                },
            },
    {
        match self.current {
            Some(k) => {
                if k.open_time == trade_time_sec {
                    let mut k2 = k;
                    k2.update(price, volume);
                    self.current = Some(k2);
                    None
                } else {
                    if self.history_limit > 0 {
                        if self.history.len() >= self.history_limit {
                            self.history.pop_front();
                        }
                        self.history.push_back(k);
                    }
                    assert(self.history@ =~= bounded_push(old(self).history@, k, self.history_limit as nat));
                    self.current = Some(Kline::new(trade_time_sec, price, volume));
                    Some(k)
                }
            },
            None => {
                self.current = Some(Kline::new(trade_time_sec, price, volume));
                None
            },
        }
    }

    /// Among the archived candles and the current one that opened within
    /// `lookback_secs` of `current_sec`, the last one with the largest body.
    pub fn find_max_impact_candle(&self, lookback_secs: i64, current_sec: i64) -> (r: Option<Kline>)
        ensures
            ({
                let c = opened_since(
                    self.spec_history() + current_seq(self.spec_current()),
                    current_sec - lookback_secs,
                );
                &&& c.len() == 0 <==> r.is_none()
                &&& r.is_some() ==> is_last_max(c, r.unwrap())
            }),
    {
        let cutoff: i128 = current_sec as i128 - lookback_secs as i128;
        let mut all: Vec<Kline> = Vec::new();
        let mut i: usize = 0;
        while i < self.history.len()
            invariant
                i <= self.history@.len(),
                all@ == self.history@.subrange(0, i as int),
            decreases self.history@.len() - i,
        {
            all.push(self.history[i]);
            i = i + 1;
            assert(all@ =~= self.history@.subrange(0, i as int));
        }
        match self.current {
            Some(k) => {
                all.push(k);
            },
            None => {},
        }
        assert(all@ =~= self.history@ + current_seq(self.current));
        let ghost s = all@;
        let mut best: Option<Kline> = None;
        let mut best_body: i128 = 0;
        let mut j: usize = 0;
        while j < all.len()
            invariant
                j <= s.len(),
                s == all@,
                best.is_none() <==> opened_since(s.subrange(0, j as int), cutoff as int).len() == 0,
                best.is_some() ==> best_body == body(best.unwrap()) && is_last_max(
                    opened_since(s.subrange(0, j as int), cutoff as int),
                    best.unwrap(),
                ),
            decreases s.len() - j,
        {
            let k = all[j];
            let ghost prev = opened_since(s.subrange(0, j as int), cutoff as int);
            assert(s.subrange(0, j + 1).drop_last() =~= s.subrange(0, j as int));
            if k.open_time as i128 >= cutoff {
                let b: i128 = if k.close >= k.open {
                    k.close as i128 - k.open as i128
                } else {
                    k.open as i128 - k.close as i128
                };
                let ghost cur = prev.push(k);
                if best.is_none() || b >= best_body {
                    proof {
                        if best.is_some() {
                            let bk = best.unwrap();
                            let jj = choose|jj: int|
                                0 <= jj < prev.len() && prev[jj] == bk && (forall|i: int|
                                    0 <= i < prev.len() ==> body(#[trigger] prev[i]) <= body(bk)) && (
                                forall|i: int| jj < i < prev.len() ==> body(#[trigger] prev[i]) < body(bk));
                            assert(forall|i: int| 0 <= i < prev.len() ==> cur[i] == prev[i]);
                        }
                        assert(cur[cur.len() - 1] == k);
                        assert(forall|i: int| 0 <= i < cur.len() ==> body(#[trigger] cur[i]) <= body(k)) by {
                            assert(forall|i: int| 0 <= i < prev.len() ==> cur[i] == prev[i]);
                        }
                    }
                    best = Some(k);
                    best_body = b;
                } else {
                    proof {
                        let bk = best.unwrap();
                        let jj = choose|jj: int|
                            0 <= jj < prev.len() && prev[jj] == bk && (forall|i: int|
                                0 <= i < prev.len() ==> body(#[trigger] prev[i]) <= body(bk)) && (forall|
                                i: int,
                            | jj < i < prev.len() ==> body(#[trigger] prev[i]) < body(bk));
                        assert(forall|i: int| 0 <= i < prev.len() ==> cur[i] == prev[i]);
                        assert(cur[jj] == bk);
                        assert(forall|i: int| 0 <= i < cur.len() ==> body(#[trigger] cur[i]) <= body(bk));
                        assert(forall|i: int| jj < i < cur.len() ==> body(#[trigger] cur[i]) < body(bk));
                    }
                }
            }
            j = j + 1;
        }
        assert(s.subrange(0, s.len() as int) =~= s);
        best
    }
}

} // verus!
