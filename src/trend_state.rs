use vstd::prelude::*;

use crate::fitter::FitResult;
use crate::ring_buffer::{bounded_push, RingBuffer};

verus! {

/// Direction of the signal currently held.
#[derive(Clone, Copy, Debug, PartialEq, Eq, Structural)]
pub enum TrendDirection {
    Long,
    Short,
    Neutral,
}

/// Phase of the entry/exit lifecycle.
#[derive(Clone, Copy, Debug, PartialEq, Eq, Structural)]
pub enum StrategyState {
    Cooldown,
    Scanning,
    Holding,
}

/// Largest wall-clock timestamp, in milliseconds, that the machine accepts
/// (about the year 2109); it keeps the exact exit arithmetic within 128 bits.
pub const MAX_TIMESTAMP_MS: u64 = 4398046511104;

/// Number of slopes remembered while holding.
pub const SLOPE_HISTORY_LEN: usize = 10;

/// Time after entry, in milliseconds, before momentum exhaustion is checked.
pub const MOMENTUM_CHECK_MS: u64 = 5000;

/// More weak slopes than this among the remembered ones force an exit.
pub const MAX_WEAK_SLOPES: usize = 5;

/// Thresholds of the machine. Prices are fixed-point units, slopes fixed-point
/// units per second, order-flow values fixed-point quantity units, times in
/// milliseconds, and `slope_threshold_ratio_ppm` a ratio in millionths.
#[derive(Clone, Copy, Debug)]
pub struct TrendConfig {
    pub slope_threshold: i64,
    pub ofi_confirm_threshold: i64,
    pub cooldown_ms: u64,
    pub slope_threshold_ratio_ppm: u64,
    pub min_price_fallback: u64,
    pub max_price_fallback: u64,
    pub entry_protection_ms: u64,
    pub slope_weak_threshold: i64,
}

/// The mutable part of the machine, as contracts see it.
pub struct TrendModel {
    pub state: StrategyState,
    pub direction: TrendDirection,
    pub entry_slope: i64,
    pub entry_price: i64,
    pub entry_ts_ms: u64,
    pub cooldown_start_ms: u64,
    pub slope_history: Seq<i64>,
}

/// Scanning → Holding → Cooldown → Scanning lifecycle of the trend signal.
pub struct TrendStateMachine {
    state: StrategyState,
    direction: TrendDirection,
    entry_slope: i64,
    entry_price: i64,
    entry_ts_ms: u64,
    cooldown_start_ms: u64,
    config: TrendConfig,
    slope_history: RingBuffer<i64>,
}

pub open spec fn abs(x: int) -> int {
    if x < 0 { -x } else { x }
}

pub open spec fn clamp(x: int, lo: int, hi: int) -> int {
    if x < lo { lo } else if x > hi { hi } else { x }
}

/// Thresholds the machine accepts: the fallback bounds are ordered.
pub open spec fn config_ok(c: TrendConfig) -> bool {
    c.min_price_fallback <= c.max_price_fallback
}

/// Whether the fit opens a long position.
pub open spec fn long_entry(c: TrendConfig, fit: FitResult, cum_ofi: i64) -> bool {
    fit.is_valid && fit.slope > c.slope_threshold && cum_ofi > c.ofi_confirm_threshold
}

/// Whether the fit opens a short position.
pub open spec fn short_entry(c: TrendConfig, fit: FitResult, cum_ofi: i64) -> bool {
    fit.is_valid && fit.slope < -c.slope_threshold && cum_ofi < -c.ofi_confirm_threshold
}

/// The fitted entry line at `elapsed_ms` after entry, scaled by 10^9.
pub open spec fn fitted_scaled(m: TrendModel, elapsed_ms: int) -> int {
    m.entry_price * 1000000000 + m.entry_slope * elapsed_ms * 1000000
}

/// The allowed retracement `clamp((1 - ratio) * |entry_slope| * elapsed,
/// min_price_fallback, max_price_fallback)`, scaled by 10^9.
pub open spec fn threshold_scaled(c: TrendConfig, m: TrendModel, elapsed_ms: int) -> int {
    clamp(
        (1000000 - c.slope_threshold_ratio_ppm) * abs(m.entry_slope as int) * elapsed_ms,
        c.min_price_fallback * 1000000000,
        c.max_price_fallback * 1000000000,
    )
}

/// Whether the price has retraced beyond the allowed distance from the entry
/// line, against the held direction, once the entry protection has passed.
pub open spec fn fallback_exit(c: TrendConfig, m: TrendModel, now_ms: u64, latest_price: i64) -> bool {
    let elapsed = now_ms - m.entry_ts_ms;
    let p = latest_price * 1000000000;
    &&& elapsed >= c.entry_protection_ms
    &&& match m.direction {
        TrendDirection::Long => p < fitted_scaled(m, elapsed) - threshold_scaled(c, m, elapsed),
        TrendDirection::Short => p > fitted_scaled(m, elapsed) + threshold_scaled(c, m, elapsed),
        TrendDirection::Neutral => false,
    }
}

/// Whether a remembered slope counts as weak for the held direction.
pub open spec fn is_weak(c: TrendConfig, dir: TrendDirection, s: i64) -> bool {
    match dir {
        TrendDirection::Long => s < c.slope_weak_threshold,
        TrendDirection::Short => s > -c.slope_weak_threshold,
        TrendDirection::Neutral => false,
    }
}

pub open spec fn weak_count(c: TrendConfig, dir: TrendDirection, h: Seq<i64>) -> nat
    decreases h.len(),
{
    if h.len() == 0 {
        0
    } else {
        weak_count(c, dir, h.drop_last()) + if is_weak(c, dir, h.last()) { 1nat } else { 0nat }
    }
}

/// Whether momentum is exhausted: five seconds held, a full slope history, and
/// more than five weak slopes in it.
pub open spec fn momentum_exit(c: TrendConfig, m: TrendModel, now_ms: u64) -> bool {
    &&& now_ms - m.entry_ts_ms >= MOMENTUM_CHECK_MS
    &&& m.slope_history.len() >= SLOPE_HISTORY_LEN
    &&& weak_count(c, m.direction, m.slope_history) > MAX_WEAK_SLOPES
}

pub open spec fn entered(m: TrendModel, dir: TrendDirection, fit: FitResult, now_ms: u64) -> TrendModel {
    TrendModel {
        state: StrategyState::Holding,
        direction: dir,
        entry_slope: fit.slope,
        entry_price: fit.current_price,
        entry_ts_ms: now_ms,
        slope_history: Seq::empty(),
        ..m
    }
}

pub open spec fn exited(m: TrendModel, now_ms: u64) -> TrendModel {
    TrendModel {
        state: StrategyState::Cooldown,
        direction: TrendDirection::Neutral,
        cooldown_start_ms: now_ms,
        slope_history: Seq::empty(),
        ..m
    }
}

/// One step of the machine at time `now_ms`.
pub open spec fn next(
    c: TrendConfig,
    m: TrendModel,
    now_ms: u64,
    fit: Option<FitResult>,
    cum_ofi: i64,
    latest_price: i64,
) -> TrendModel {
    match m.state {
        StrategyState::Cooldown => {
            if now_ms - m.cooldown_start_ms >= c.cooldown_ms {
                TrendModel { state: StrategyState::Scanning, ..m }
            } else {
                m
            }
        },
        StrategyState::Scanning => {
            match fit {
                Some(f) => {
                    if long_entry(c, f, cum_ofi) {
                        entered(m, TrendDirection::Long, f, now_ms)
                    } else if short_entry(c, f, cum_ofi) {
                        entered(m, TrendDirection::Short, f, now_ms)
                    } else {
                        m
                    }
                },
                None => m,
            }
        },
        StrategyState::Holding => {
            match fit {
                Some(f) => {
                    let m1 = TrendModel {
                        slope_history: bounded_push(m.slope_history, f.slope, SLOPE_HISTORY_LEN as nat),
                        ..m
                    };
                    if fallback_exit(c, m1, now_ms, latest_price) || momentum_exit(c, m1, now_ms) {
                        exited(m1, now_ms)
                    } else {
                        m1
                    }
                },
                None => m,
            }
        },
    }
}

/// A model the machine can be in: it holds a direction exactly while holding.
pub open spec fn model_ok(m: TrendModel) -> bool {
    &&& (m.state == StrategyState::Holding) == (m.direction != TrendDirection::Neutral)
    &&& m.entry_ts_ms <= MAX_TIMESTAMP_MS
    &&& m.slope_history.len() <= SLOPE_HISTORY_LEN
}

impl TrendStateMachine {
    pub closed spec fn model(&self) -> TrendModel {
        TrendModel {
            state: self.state,
            direction: self.direction,
            entry_slope: self.entry_slope,
            entry_price: self.entry_price,
            entry_ts_ms: self.entry_ts_ms,
            cooldown_start_ms: self.cooldown_start_ms,
            slope_history: self.slope_history.view(),
        }
    }

    pub closed spec fn spec_config(&self) -> TrendConfig {
        self.config
    }

    pub closed spec fn wf(&self) -> bool {
        &&& model_ok(self.model())
        &&& config_ok(self.config)
        &&& self.slope_history.wf()
        &&& self.slope_history.spec_capacity() == SLOPE_HISTORY_LEN
    }

    pub fn new(config: TrendConfig) -> (r: Self)
        requires
            config_ok(config),
        ensures
            r.wf(),
            r.spec_config() == config,
            r.model().state == StrategyState::Scanning,
            r.model().direction == TrendDirection::Neutral,
            r.model().slope_history.len() == 0,
    {
        TrendStateMachine {
            state: StrategyState::Scanning,
            direction: TrendDirection::Neutral,
            entry_slope: 0,
            entry_price: 0,
            entry_ts_ms: 0,
            cooldown_start_ms: 0,
            config,
            slope_history: RingBuffer::new(SLOPE_HISTORY_LEN),
        }
    }
    /// Advances the machine by one step at wall-clock time `now_ms` with the
    /// latest fit (if any), the cumulative order-flow imbalance and the latest
    /// price.
    pub fn update(&mut self, now_ms: u64, fit: Option<FitResult>, cum_ofi: i64, latest_price: i64)
        requires
            old(self).wf(),
            now_ms <= MAX_TIMESTAMP_MS,
        ensures
            final(self).wf(),
            final(self).spec_config() == old(self).spec_config(),
            final(self).model() == next(
                old(self).spec_config(),
                old(self).model(),
                now_ms,
                fit,
                cum_ofi,
                latest_price,
            ),
    {
        match self.state {
            StrategyState::Cooldown => {
                if (now_ms as i128) - (self.cooldown_start_ms as i128) >= self.config.cooldown_ms as i128 {
                    self.state = StrategyState::Scanning;
                }
            },
            StrategyState::Scanning => {
                match fit {
                    Some(f) => {
                        if f.is_valid && f.slope > self.config.slope_threshold && cum_ofi
                            > self.config.ofi_confirm_threshold {
                            self.enter_position(TrendDirection::Long, f, now_ms);
                        } else if f.is_valid && (f.slope as i128) < -(
                        self.config.slope_threshold as i128) && (cum_ofi as i128) < -(
                        self.config.ofi_confirm_threshold as i128) {
                            self.enter_position(TrendDirection::Short, f, now_ms);
                        }
                    },
                    None => {},
                }
            },
            StrategyState::Holding => {
                match fit {
                    Some(f) => {
                        self.slope_history.add_value(f.slope);
                        if self.fallback_triggered(now_ms, latest_price) {
                            self.exit_position(now_ms);
                        } else if self.momentum_exhausted(now_ms) {
                            self.exit_position(now_ms);
                        }
                    },
                    None => {},
                }
            },
        }
    }

    fn enter_position(&mut self, direction: TrendDirection, fit: FitResult, now_ms: u64)
        requires
            old(self).wf(),
            old(self).state == StrategyState::Scanning,
            direction != TrendDirection::Neutral,
            now_ms <= MAX_TIMESTAMP_MS,
        ensures
            final(self).wf(),
            final(self).spec_config() == old(self).spec_config(),
            final(self).model() == entered(old(self).model(), direction, fit, now_ms),
    {
        self.state = StrategyState::Holding;
        self.direction = direction;
        self.entry_slope = fit.slope;
        self.entry_price = fit.current_price;
        self.entry_ts_ms = now_ms;
        self.slope_history.clear();
    }

    fn exit_position(&mut self, now_ms: u64)
        requires
            old(self).wf(),
        ensures
            final(self).wf(),
            final(self).spec_config() == old(self).spec_config(),
            final(self).model() == exited(old(self).model(), now_ms),
    {
        self.state = StrategyState::Cooldown;
        self.cooldown_start_ms = now_ms;
        self.direction = TrendDirection::Neutral;
        self.slope_history.clear();
    }

    fn fallback_triggered(&self, now_ms: u64, latest_price: i64) -> (r: bool)
        requires
            self.wf(),
            now_ms <= MAX_TIMESTAMP_MS,
        ensures
            r == fallback_exit(self.config, self.model(), now_ms, latest_price),
    {
        let elapsed: i128 = now_ms as i128 - self.entry_ts_ms as i128;
        if elapsed < self.config.entry_protection_ms as i128 {
            return false;
        }
        let slope: i128 = self.entry_slope as i128;
        assert(-0x8000000000000000int * 0x40000000000 <= slope * elapsed <= 0x8000000000000000int
            * 0x40000000000) by (nonlinear_arith)
            requires
                -0x8000000000000000int <= slope <= 0x8000000000000000int,
                -0x40000000000int <= elapsed <= 0x40000000000int,
        ;
        let fitted: i128 = (self.entry_price as i128) * 1000000000 + slope * elapsed * 1000000;
        let threshold = self.fallback_threshold(elapsed);
        let p: i128 = latest_price as i128 * 1000000000;
        match self.direction {
            TrendDirection::Long => p < fitted - threshold,
            TrendDirection::Short => p > fitted + threshold,
            TrendDirection::Neutral => false,
        }
    }

    /// The allowed retracement at `elapsed_ms` after entry, scaled by 10^9.
    fn fallback_threshold(&self, elapsed: i128) -> (t: i128)
        requires
            self.wf(),
            0 <= elapsed <= 0x40000000000int,
        ensures
            t == threshold_scaled(self.config, self.model(), elapsed as int),
    {
        let lo: i128 = self.config.min_price_fallback as i128 * 1000000000;
        let hi: i128 = self.config.max_price_fallback as i128 * 1000000000;
        let slope: i128 = self.entry_slope as i128;
        let abs_slope: i128 = if slope < 0 { -slope } else { slope };
        if self.config.slope_threshold_ratio_ppm >= 1000000 {
            assert((1000000 - self.config.slope_threshold_ratio_ppm) * abs(self.entry_slope as int) * elapsed
                <= 0) by (nonlinear_arith)
                requires
                    1000000 - self.config.slope_threshold_ratio_ppm <= 0,
                    abs(self.entry_slope as int) >= 0,
                    elapsed >= 0,
            ;
            return lo;
        }
        let retain: i128 = 1000000 - self.config.slope_threshold_ratio_ppm as i128;
        assert(0 <= retain * abs_slope <= 1000000 * 0x8000000000000000int) by (nonlinear_arith)
            requires
                0 <= abs_slope <= 0x8000000000000000int,
                0 <= retain <= 1000000,
        ;
        let ra: i128 = retain * abs_slope;
        assert(0 <= ra * elapsed <= 1000000 * 0x8000000000000000int * 0x40000000000) by (nonlinear_arith)
            requires
                0 <= ra <= 1000000 * 0x8000000000000000int,
                0 <= elapsed <= 0x40000000000int,
        ;
        let raw: i128 = ra * elapsed;
        assert(raw == (1000000 - self.config.slope_threshold_ratio_ppm) * abs(self.entry_slope as int)
            * elapsed) by (nonlinear_arith)
            requires
                raw == ra * elapsed,
                ra == retain * abs_slope,
                retain == 1000000 - self.config.slope_threshold_ratio_ppm,
                abs_slope == abs(self.entry_slope as int),
        ;
        if raw < lo {
            lo
        } else if raw > hi {
            hi
        } else {
            raw
        }
    }

    fn momentum_exhausted(&self, now_ms: u64) -> (r: bool)
        requires
            self.wf(),
            now_ms <= MAX_TIMESTAMP_MS,
        ensures
            r == momentum_exit(self.config, self.model(), now_ms),
    {
        if (now_ms as i128) - (self.entry_ts_ms as i128) < MOMENTUM_CHECK_MS as i128 {
            return false;
        }
        if self.slope_history.len() < SLOPE_HISTORY_LEN {
            return false;
        }
        let h = self.slope_history.get_as_vec();
        let mut count: usize = 0;
        let mut i: usize = 0;
        while i < h.len()
            invariant
                i <= h@.len(),
                h@.len() <= SLOPE_HISTORY_LEN,
                count <= i,
                count == weak_count(self.config, self.direction, h@.subrange(0, i as int)),
            decreases h.len() - i,
        {
            let s = h[i];
            let weak = match self.direction {
                TrendDirection::Long => s < self.config.slope_weak_threshold,
                TrendDirection::Short => (s as i128) > -(self.config.slope_weak_threshold as i128),
                TrendDirection::Neutral => false,
            };
            assert(h@.subrange(0, i + 1).drop_last() =~= h@.subrange(0, i as int));
            if weak {
                count = count + 1;
            }
            i = i + 1;
        }
        assert(h@.subrange(0, h@.len() as int) =~= h@);
        count > MAX_WEAK_SLOPES
    }

    pub fn get_state(&self) -> (r: StrategyState)
        ensures
            r == self.model().state,
    {
        self.state
    }

    pub fn get_direction(&self) -> (r: TrendDirection)
        ensures
            r == self.model().direction,
    {
        self.direction
    }

    pub fn is_holding(&self) -> (r: bool)
        ensures
            r == (self.model().state == StrategyState::Holding),
    {
        match self.state {
            StrategyState::Holding => true,
            _ => false,
        }
    }
}


/// From Scanning, a valid fit whose slope and cumulative order flow both exceed
/// their thresholds opens a long position recording the fit; a later step with
/// the same fit does not re-enter and leaves the entry record as it was.
pub proof fn lemma_long_entry_once(
    c: TrendConfig,
    m: TrendModel,
    now_ms: u64,
    fit: FitResult,
    cum_ofi: i64,
    latest_price: i64,
    later_ms: u64,
    later_price: i64,
)
    requires
        model_ok(m),
        m.state == StrategyState::Scanning,
        fit.is_valid,
        fit.slope > c.slope_threshold,
        cum_ofi > c.ofi_confirm_threshold,
    ensures
        ({
            let m1 = next(c, m, now_ms, Some(fit), cum_ofi, latest_price);
            let m2 = next(c, m1, later_ms, Some(fit), cum_ofi, later_price);
            &&& m1.state == StrategyState::Holding
            &&& m1.direction == TrendDirection::Long
            &&& m1.entry_slope == fit.slope
            &&& m1.entry_price == fit.current_price
            &&& m1.entry_ts_ms == now_ms
            &&& m2.state != StrategyState::Scanning
            &&& m2.entry_slope == m1.entry_slope
            &&& m2.entry_price == m1.entry_price
            &&& m2.entry_ts_ms == m1.entry_ts_ms
        }),
{
}

/// A held position whose price has crossed the fallback threshold against it,
/// once the entry protection has passed, moves to Cooldown; before the
/// protection (and the momentum check) has passed it stays held.
pub proof fn lemma_holding_fallback_exit(
    c: TrendConfig,
    m: TrendModel,
    now_ms: u64,
    fit: FitResult,
    cum_ofi: i64,
    latest_price: i64,
)
    requires
        model_ok(m),
        m.state == StrategyState::Holding,
    ensures
        fallback_exit(c, m, now_ms, latest_price) ==> {
            let m1 = next(c, m, now_ms, Some(fit), cum_ofi, latest_price);
            &&& m1.state == StrategyState::Cooldown
            &&& m1.direction == TrendDirection::Neutral
            &&& m1.cooldown_start_ms == now_ms
        },
        fallback_exit(c, m, now_ms, latest_price) ==> now_ms - m.entry_ts_ms >= c.entry_protection_ms,
        (now_ms - m.entry_ts_ms < c.entry_protection_ms && now_ms - m.entry_ts_ms
            < MOMENTUM_CHECK_MS) ==> next(c, m, now_ms, Some(fit), cum_ofi, latest_price).state
            == StrategyState::Holding,
{
}

/// Cooldown gives way to Scanning exactly when the cooldown has elapsed.
pub proof fn lemma_cooldown_release(
    c: TrendConfig,
    m: TrendModel,
    now_ms: u64,
    fit: Option<FitResult>,
    cum_ofi: i64,
    latest_price: i64,
)
    requires
        m.state == StrategyState::Cooldown,
    ensures
        next(c, m, now_ms, fit, cum_ofi, latest_price).state == if now_ms - m.cooldown_start_ms
            >= c.cooldown_ms {
            StrategyState::Scanning
        } else {
            StrategyState::Cooldown
        },
{
}

} // verus!
