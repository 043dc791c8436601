use std::collections::VecDeque;
use vstd::prelude::*;

use crate::ring_buffer::bounded_push;

verus! {

/// The volume-weighted price of one closed window, stamped with the time of the
/// window's last trade.
#[derive(Clone, Copy, Debug, PartialEq, Eq, Structural)]
pub struct VwapPoint {
    pub price: u64,
    pub timestamp_ms: u64,
}

/// Tumbling-window volume-weighted average price, kept as running sums, with a
/// bounded series of the closed windows' prices.
///
/// The running sums saturate at `u128::MAX`, far beyond any real window.
pub struct VwapCalculator {
    window_ms: u64,
    window_open: bool,
    window_start_ms: u64,
    sum_pq: u128,
    sum_q: u128,
    last_ts_ms: u64,
    vwap_series: VecDeque<VwapPoint>,
    max_series_len: usize,
}

/// The state of the open window, as contracts see it.
pub struct VwapWindow {
    pub open: bool,
    pub start_ms: u64,
    pub sum_pq: u128,
    pub sum_q: u128,
    pub last_ts_ms: u64,
}

pub open spec fn sat_add(a: int, b: int) -> u128 {
    if a + b > u128::MAX { u128::MAX } else { (a + b) as u128 }
}

/// The price of a window with the given sums, capped to the price range.
pub open spec fn vwap_price(sum_pq: u128, sum_q: u128) -> u64 {
    if sum_pq / sum_q > u64::MAX { u64::MAX } else { (sum_pq / sum_q) as u64 }
}

/// A window opened by a single trade.
pub open spec fn fresh_window(price: u64, qty: u64, ts_ms: u64) -> VwapWindow {
    VwapWindow { open: true, start_ms: ts_ms, sum_pq: (price * qty) as u128, sum_q: qty as u128, last_ts_ms: ts_ms }
}

/// Whether a trade at `ts_ms` falls in the open window `w` of length `window_ms`;
/// a trade stamped before the window's start counts as inside.
pub open spec fn in_window(w: VwapWindow, ts_ms: u64, window_ms: u64) -> bool {
    w.open && (ts_ms < w.start_ms || ts_ms - w.start_ms < window_ms)
}

impl VwapCalculator {
    pub closed spec fn spec_window(&self) -> VwapWindow {
        VwapWindow {
            open: self.window_open,
            start_ms: self.window_start_ms,
            sum_pq: self.sum_pq,
            sum_q: self.sum_q,
            last_ts_ms: self.last_ts_ms,
        }
    }

    /// The closed windows' prices, oldest first.
    pub closed spec fn spec_series(&self) -> Seq<VwapPoint> {
        self.vwap_series@
    }

    pub closed spec fn spec_window_ms(&self) -> u64 {
        self.window_ms
    }

    pub closed spec fn spec_max_series_len(&self) -> nat {
        self.max_series_len as nat
    }

    pub closed spec fn wf(&self) -> bool {
        self.vwap_series@.len() <= self.max_series_len
    }

    pub fn new(window_ms: u64, max_series_len: usize) -> (r: Self)
        ensures
            r.wf(),
            !r.spec_window().open,
            r.spec_series().len() == 0,
            r.spec_window_ms() == window_ms,
            r.spec_max_series_len() == max_series_len,
    {
        VwapCalculator {
            window_ms,
            window_open: false,
            window_start_ms: 0,
            sum_pq: 0,
            sum_q: 0,
            last_ts_ms: 0,
            vwap_series: VecDeque::new(),
            max_series_len,
        }
    }

    /// Adds a trade. A trade inside the open window is accumulated and nothing
    /// is returned. A trade past the window closes it: its price (if it saw any
    /// quantity) is appended to the series and returned, and the trade opens the
    /// next window. The first trade opens the first window.
    pub fn add_trade(&mut self, price: u64, qty: u64, timestamp_ms: u64) -> (r: Option<VwapPoint>)
        requires
            old(self).wf(),
        ensures
            final(self).wf(),
            final(self).spec_window_ms() == old(self).spec_window_ms(),
            final(self).spec_max_series_len() == old(self).spec_max_series_len(),
            ({
                let w = old(self).spec_window();
                if !w.open {
                    &&& r.is_none()
                    &&& final(self).spec_window() == fresh_window(price, qty, timestamp_ms)
                    &&& final(self).spec_series() == old(self).spec_series()
                } else if in_window(w, timestamp_ms, old(self).spec_window_ms()) {
                    &&& r.is_none()
                    &&& final(self).spec_window() == VwapWindow {
                        sum_pq: sat_add(w.sum_pq as int, price * qty),
                        sum_q: sat_add(w.sum_q as int, qty as int),
                        last_ts_ms: timestamp_ms,
                        ..w
                    }
                    &&& final(self).spec_series() == old(self).spec_series()
                } else if w.sum_q == 0 {
                    &&& r.is_none()
                    &&& final(self).spec_window() == fresh_window(price, qty, timestamp_ms)
                    &&& final(self).spec_series() == old(self).spec_series()
                } else {
                    let p = VwapPoint { price: vwap_price(w.sum_pq, w.sum_q), timestamp_ms: w.last_ts_ms };
                    &&& r == Some(p)
                    &&& final(self).spec_window() == fresh_window(price, qty, timestamp_ms)
                    &&& final(self).spec_series() == bounded_push(
                        old(self).spec_series(),
                        p,
                        old(self).spec_max_series_len(),
                    )
                }
            }),
    {
        assert(price * qty <= 0xffff_ffff_ffff_ffffint * 0xffff_ffff_ffff_ffffint) by (nonlinear_arith)
            requires
                price <= 0xffff_ffff_ffff_ffffint,
                qty <= 0xffff_ffff_ffff_ffffint,
        ;
        let pq: u128 = (price as u128) * (qty as u128);
        if !self.window_open {
            self.window_open = true;
            self.window_start_ms = timestamp_ms;
            self.sum_pq = pq;
            self.sum_q = qty as u128;
            self.last_ts_ms = timestamp_ms;
            return None;
        }
        if timestamp_ms < self.window_start_ms || timestamp_ms - self.window_start_ms < self.window_ms {
            self.sum_pq = self.sum_pq.saturating_add(pq);
            self.sum_q = self.sum_q.saturating_add(qty as u128);
            self.last_ts_ms = timestamp_ms;
            return None;
        }
        let point = self.flush();
        self.window_start_ms = timestamp_ms;
        self.sum_pq = pq;
        self.sum_q = qty as u128;
        self.last_ts_ms = timestamp_ms;
        point
    }

    fn flush(&mut self) -> (r: Option<VwapPoint>)
        requires
            old(self).wf(),
        ensures
            final(self).wf(),
            final(self).spec_window() == old(self).spec_window(),
            final(self).spec_window_ms() == old(self).spec_window_ms(),
            final(self).spec_max_series_len() == old(self).spec_max_series_len(),
            old(self).spec_window().sum_q == 0 ==> r.is_none() && final(self).spec_series() == old(
                self,
            ).spec_series(),
            old(self).spec_window().sum_q > 0 ==> {
                let w = old(self).spec_window();
                let p = VwapPoint { price: vwap_price(w.sum_pq, w.sum_q), timestamp_ms: w.last_ts_ms };
                &&& r == Some(p)
                &&& final(self).spec_series() == bounded_push(
                    old(self).spec_series(),
                    p,
                    old(self).spec_max_series_len(),
                )
            },
    {
        if self.sum_q == 0 {
            return None;
        }
        let v = self.sum_pq / self.sum_q;
        let price: u64 = if v > u64::MAX as u128 { u64::MAX } else { v as u64 };
        let point = VwapPoint { price, timestamp_ms: self.last_ts_ms };
        if self.max_series_len > 0 {
            if self.vwap_series.len() >= self.max_series_len {
                self.vwap_series.pop_front();
            }
            self.vwap_series.push_back(point);
        }
        assert(self.vwap_series@ =~= bounded_push(old(self).vwap_series@, point, self.max_series_len as nat));
        Some(point)
    }

    /// The closed windows' prices, oldest first.
    pub fn get_series(&self) -> (r: &VecDeque<VwapPoint>)
        ensures
            r@ == self.spec_series(),
    {
        &self.vwap_series
    }

    /// Drops the leading series points stamped before `cutoff_ms`.
    pub fn cleanup(&mut self, cutoff_ms: u64)
        requires
            old(self).wf(),
        ensures
            final(self).wf(),
            final(self).spec_window() == old(self).spec_window(),
            final(self).spec_window_ms() == old(self).spec_window_ms(),
            final(self).spec_max_series_len() == old(self).spec_max_series_len(),
            final(self).spec_series() == drop_before(old(self).spec_series(), cutoff_ms),
    {
        let mut scanning = true;
        while scanning && self.vwap_series.len() > 0
            invariant
                drop_before(self.vwap_series@, cutoff_ms) == drop_before(old(self).vwap_series@, cutoff_ms),
                !scanning ==> drop_before(self.vwap_series@, cutoff_ms) == self.vwap_series@,
                self.vwap_series@.len() <= old(self).vwap_series@.len(),
                self.window_ms == old(self).window_ms,
                self.window_open == old(self).window_open,
                self.window_start_ms == old(self).window_start_ms,
                self.sum_pq == old(self).sum_pq,
                self.sum_q == old(self).sum_q,
                self.last_ts_ms == old(self).last_ts_ms,
                self.max_series_len == old(self).max_series_len,
                old(self).vwap_series@.len() <= old(self).max_series_len,
            decreases self.vwap_series@.len() + if scanning { 1int } else { 0int },
        {
            if self.vwap_series[0].timestamp_ms < cutoff_ms {
                let ghost before = self.vwap_series@;
                self.vwap_series.pop_front();
                assert(self.vwap_series@ =~= before.drop_first());
            } else {
                scanning = false;
            }
        }
    }
}

/// `s` without its leading points stamped before `cutoff_ms`.
pub open spec fn drop_before(s: Seq<VwapPoint>, cutoff_ms: u64) -> Seq<VwapPoint>
    decreases s.len(),
{
    if s.len() > 0 && s[0].timestamp_ms < cutoff_ms {
        drop_before(s.drop_first(), cutoff_ms)
    } else {
        s
    }
}

} // verus!
