use std::collections::VecDeque;
use vstd::prelude::*;

verus! {

/// One trade price kept for the volatility estimate.
#[derive(Clone, Copy, Debug, PartialEq, Eq, Structural)]
pub struct PricePoint {
    /// Trade price in fixed-point units (see `crate::fixed::PRICE_SCALE`).
    pub price: u64,
    pub timestamp_ms: u64,
}

/// The inputs of one volatility estimate, or the fail-safe marker when there are
/// too few samples or the newest sample is too old.
///
/// When `is_stale` holds, `prices` is empty and `duration_ms` is zero; otherwise
/// `prices` are the buffered prices, oldest first, and `duration_ms` is the time
/// between the oldest and newest sample.
pub struct VolatilityWindow {
    pub is_stale: bool,
    pub prices: Vec<u64>,
    pub duration_ms: u64,
}

/// Sliding window of the most recent trade prices, with age-based expiry and
/// staleness detection. The realized-volatility arithmetic itself (logarithms and
/// square roots) is carried out on the window that `get_volatility` hands out.
pub struct InstantVolatilityIndicator {
    window_size: usize,
    prices: VecDeque<PricePoint>,
    stale_threshold_ms: u64,
    expire_threshold_ms: u64,
}

pub open spec fn sat_sub(a: u64, b: u64) -> nat {
    if a >= b { (a - b) as nat } else { 0 }
}

pub open spec fn is_expired(p: PricePoint, now_ms: u64, expire_ms: u64) -> bool {
    sat_sub(now_ms, p.timestamp_ms) > expire_ms
}

/// `s` without its leading run of expired samples.
pub open spec fn drop_expired(s: Seq<PricePoint>, now_ms: u64, expire_ms: u64) -> Seq<PricePoint>
    decreases s.len(),
{
    if s.len() > 0 && is_expired(s[0], now_ms, expire_ms) {
        drop_expired(s.drop_first(), now_ms, expire_ms)
    } else {
        s
    }
}

/// `s` with its oldest sample dropped when it holds more than `w` samples.
pub open spec fn cap_window(s: Seq<PricePoint>, w: nat) -> Seq<PricePoint> {
    if s.len() > w { s.drop_first() } else { s }
}

/// The buffer after one update.
pub open spec fn after_update(
    s: Seq<PricePoint>,
    p: PricePoint,
    now_ms: u64,
    expire_ms: u64,
    w: nat,
) -> Seq<PricePoint> {
    cap_window(drop_expired(s, now_ms, expire_ms).push(p), w)
}

/// Whether a buffer yields the fail-safe reading at wall-clock time `now_ms`.
pub open spec fn stale_at(s: Seq<PricePoint>, now_ms: u64, stale_ms: u64) -> bool {
    s.len() < 2 || sat_sub(now_ms, s.last().timestamp_ms) > stale_ms
}

pub open spec fn prices_of(s: Seq<PricePoint>) -> Seq<u64> {
    s.map_values(|p: PricePoint| p.price)
}

proof fn lemma_drop_expired_len(s: Seq<PricePoint>, now_ms: u64, expire_ms: u64)
    ensures
        drop_expired(s, now_ms, expire_ms).len() <= s.len(),
    decreases s.len(),
{
    if s.len() > 0 && is_expired(s[0], now_ms, expire_ms) {
        lemma_drop_expired_len(s.drop_first(), now_ms, expire_ms);
    }
}

impl InstantVolatilityIndicator {
    /// The buffered samples, oldest first.
    pub closed spec fn view(&self) -> Seq<PricePoint> {
        self.prices@
    }

    pub closed spec fn spec_window_size(&self) -> nat {
        self.window_size as nat
    }

    pub closed spec fn spec_stale_threshold_ms(&self) -> u64 {
        self.stale_threshold_ms
    }

    pub closed spec fn spec_expire_threshold_ms(&self) -> u64 {
        self.expire_threshold_ms
    }

    pub closed spec fn wf(&self) -> bool {
        self.prices@.len() <= self.window_size
    }

    pub fn new(window_size: usize, stale_threshold_ms: u64, expire_threshold_ms: u64) -> (r: Self)
        ensures
            r.wf(),
            r.view() == Seq::<PricePoint>::empty(),
            r.spec_window_size() == window_size,
            r.spec_stale_threshold_ms() == stale_threshold_ms,
            r.spec_expire_threshold_ms() == expire_threshold_ms,
    {
        InstantVolatilityIndicator {
            window_size,
            prices: VecDeque::with_capacity(window_size),
            stale_threshold_ms,
            expire_threshold_ms,
        }
    }

    /// Records a trade at `price` made at `trade_time_ms`, as seen at wall-clock
    /// time `now_ms`: first the leading samples older than the expiry threshold
    /// leave, then the new sample is appended, then the oldest sample leaves if
    /// the window is over its size.
    pub fn update(&mut self, price: u64, trade_time_ms: u64, now_ms: u64)
        requires
            old(self).wf(),
        ensures
            final(self).wf(),
            final(self).view() == after_update(
                old(self).view(),
                PricePoint { price, timestamp_ms: trade_time_ms },
                now_ms,
                old(self).spec_expire_threshold_ms(),
                old(self).spec_window_size(),
            ),
            final(self).spec_window_size() == old(self).spec_window_size(),
            final(self).spec_stale_threshold_ms() == old(self).spec_stale_threshold_ms(),
            final(self).spec_expire_threshold_ms() == old(self).spec_expire_threshold_ms(),
    {
        let ghost s0 = self.prices@;
        proof {
            lemma_drop_expired_len(s0, now_ms, self.expire_threshold_ms);
        }
        let mut scanning = true;
        while scanning && self.prices.len() > 0
            invariant
                drop_expired(self.prices@, now_ms, self.expire_threshold_ms) == drop_expired(
                    s0,
                    now_ms,
                    self.expire_threshold_ms,
                ),
                !scanning ==> drop_expired(self.prices@, now_ms, self.expire_threshold_ms)
                    == self.prices@,
                self.window_size == old(self).window_size,
                self.stale_threshold_ms == old(self).stale_threshold_ms,
                self.expire_threshold_ms == old(self).expire_threshold_ms,
            decreases self.prices@.len() + if scanning { 1int } else { 0int },
        {
            let front_ts = self.prices[0].timestamp_ms;
            if now_ms.saturating_sub(front_ts) > self.expire_threshold_ms {
                let ghost before = self.prices@;
                self.prices.pop_front();
                assert(self.prices@ =~= before.drop_first());
            } else {
                scanning = false;
            }
        }
        assert(self.prices@ == drop_expired(s0, now_ms, self.expire_threshold_ms));
        proof {
            lemma_drop_expired_len(self.prices@, now_ms, self.expire_threshold_ms);
        }
        self.prices.push_back(PricePoint { price, timestamp_ms: trade_time_ms });
        if self.prices.len() > self.window_size {
            self.prices.pop_front();
        }
    }

    /// The inputs of the current volatility estimate at wall-clock time `now_ms`.
    /// Fewer than two samples, or a newest sample older than the staleness
    /// threshold, give the stale marker.
    pub fn get_volatility(&self, now_ms: u64) -> (r: VolatilityWindow)
        ensures
            r.is_stale == stale_at(self.view(), now_ms, self.spec_stale_threshold_ms()),
            r.is_stale ==> r.prices@.len() == 0 && r.duration_ms == 0,
            !r.is_stale ==> r.prices@ == prices_of(self.view()) && r.duration_ms == sat_sub(
                self.view().last().timestamp_ms,
                self.view()[0].timestamp_ms,
            ),
    {
        let n = self.prices.len();
        if n < 2 {
            return VolatilityWindow { is_stale: true, prices: Vec::new(), duration_ms: 0 };
        }
        let latest_ts = self.prices[n - 1].timestamp_ms;
        if now_ms.saturating_sub(latest_ts) > self.stale_threshold_ms {
            return VolatilityWindow { is_stale: true, prices: Vec::new(), duration_ms: 0 };
        }
        let mut out: Vec<u64> = Vec::new();
        let mut i: usize = 0;
        while i < n
            invariant
                n == self.prices@.len(),
                i <= n,
                out@ == prices_of(self.prices@.subrange(0, i as int)),
            decreases n - i,
        {
            out.push(self.prices[i].price);
            i = i + 1;
            assert(out@ =~= prices_of(self.prices@.subrange(0, i as int)));
        }
        assert(self.prices@.subrange(0, n as int) =~= self.prices@);
        let first_ts = self.prices[0].timestamp_ms;
        VolatilityWindow { is_stale: false, prices: out, duration_ms: latest_ts.saturating_sub(first_ts) }
    }

    /// Whether the window holds its full configured number of samples.
    pub fn is_ready(&self) -> (r: bool)
        ensures
            r == (self.view().len() >= self.spec_window_size()),
    {
        self.prices.len() >= self.window_size
    }

    /// Whether there are at least two samples to difference.
    pub fn can_calculate(&self) -> (r: bool)
        ensures
            r == (self.view().len() >= 2),
    {
        self.prices.len() >= 2
    }
}


proof fn lemma_drop_expired_suffix(s: Seq<PricePoint>, now_ms: u64, expire_ms: u64)
    ensures
        exists|j: int|
            0 <= j <= s.len() && drop_expired(s, now_ms, expire_ms) == #[trigger] s.subrange(j, s.len() as int),
    decreases s.len(),
{
    if s.len() > 0 && is_expired(s[0], now_ms, expire_ms) {
        lemma_drop_expired_suffix(s.drop_first(), now_ms, expire_ms);
        let j = choose|j: int|
            0 <= j <= s.drop_first().len() && drop_expired(s.drop_first(), now_ms, expire_ms)
                == #[trigger] s.drop_first().subrange(j, s.drop_first().len() as int);
        assert(s.drop_first().subrange(j, s.drop_first().len() as int) =~= s.subrange(j + 1, s.len() as int));
    } else {
        assert(s.subrange(0, s.len() as int) =~= s);
    }
}

/// An update keeps the buffer within the window size, and the buffer after it
/// is the newest part of the old buffer followed by the new sample: samples
/// leave only from the oldest end.
pub proof fn lemma_window_bounded_fifo(
    s: Seq<PricePoint>,
    p: PricePoint,
    now_ms: u64,
    expire_ms: u64,
    w: nat,
)
    requires
        s.len() <= w,
    ensures
        after_update(s, p, now_ms, expire_ms, w).len() <= w,
        exists|k: int|
            0 <= k <= s.len() + 1 && after_update(s, p, now_ms, expire_ms, w) == #[trigger] s.push(p).subrange(
                k,
                s.len() + 1 as int,
            ),
{
    lemma_drop_expired_suffix(s, now_ms, expire_ms);
    let j = choose|j: int|
        0 <= j <= s.len() && drop_expired(s, now_ms, expire_ms) == #[trigger] s.subrange(j, s.len() as int);
    let d = drop_expired(s, now_ms, expire_ms);
    assert(d.push(p) =~= s.push(p).subrange(j, s.len() + 1 as int));
    if d.push(p).len() > w {
        assert(d.push(p).drop_first() =~= s.push(p).subrange(j + 1, s.len() + 1 as int));
    }
}

/// With fewer than two samples the reading is always the fail-safe one.
pub proof fn lemma_few_samples_stale(s: Seq<PricePoint>, now_ms: u64, stale_ms: u64)
    requires
        s.len() < 2,
    ensures
        stale_at(s, now_ms, stale_ms),
{
}

/// A newest sample older than the staleness threshold gives the fail-safe
/// reading, whatever else the buffer holds.
pub proof fn lemma_silent_feed_stale(s: Seq<PricePoint>, now_ms: u64, stale_ms: u64)
    requires
        s.len() > 0,
        now_ms - s.last().timestamp_ms > stale_ms,
    ensures
        stale_at(s, now_ms, stale_ms),
{
}

} // verus!
