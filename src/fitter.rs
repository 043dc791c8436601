use std::collections::VecDeque;
use vstd::prelude::*;

use crate::vwap::VwapPoint;

verus! {

/// A least-squares line through recent VWAP points. Prices are in fixed-point
/// units, slopes in fixed-point units per second, and `r_squared_ppm` is the
/// coefficient of determination in millionths.
#[derive(Clone, Copy, Debug, PartialEq, Eq, Structural)]
pub struct FitResult {
    pub slope: i64,
    pub intercept: i64,
    pub r_squared_ppm: i64,
    pub is_valid: bool,
    pub current_price: i64,
}

/// Chooses the VWAP points a trend line is fitted through: those within
/// `window_ms` of the current time, provided there are at least `min_points`.
pub struct PriceFitter {
    window_ms: u64,
    min_points: usize,
}

/// Whether a point lies within `window_ms` before `current_ts_ms` (or later).
pub open spec fn recent(p: VwapPoint, current_ts_ms: u64, window_ms: u64) -> bool {
    p.timestamp_ms + window_ms >= current_ts_ms
}

/// The points of `s` within the window, in series order.
pub open spec fn window_of(s: Seq<VwapPoint>, current_ts_ms: u64, window_ms: u64) -> Seq<VwapPoint>
    decreases s.len(),
{
    if s.len() == 0 {
        s
    } else {
        let rest = window_of(s.drop_last(), current_ts_ms, window_ms);
        if recent(s.last(), current_ts_ms, window_ms) {
            rest.push(s.last())
        } else {
            rest
        }
    }
}

/// `current_price + slope * horizon`, with the horizon in milliseconds and the
/// slope's share rounded toward negative infinity.
pub open spec fn predicted(fit: FitResult, horizon_ms: u64) -> int {
    fit.current_price + (fit.slope * horizon_ms) / 1000
}

impl PriceFitter {
    pub closed spec fn spec_window_ms(&self) -> u64 {
        self.window_ms
    }

    pub closed spec fn spec_min_points(&self) -> nat {
        self.min_points as nat
    }

    pub fn new(window_ms: u64, min_points: usize) -> (r: Self)
        ensures
            r.spec_window_ms() == window_ms,
            r.spec_min_points() == min_points,
    {
        PriceFitter { window_ms, min_points }
    }

    /// The points to fit at `current_ts_ms`, or nothing when fewer than
    /// `min_points` lie in the window.
    pub fn fit_window(&self, series: &VecDeque<VwapPoint>, current_ts_ms: u64) -> (r: Option<Vec<VwapPoint>>)
        ensures
            ({
                let w = window_of(series@, current_ts_ms, self.spec_window_ms());
                &&& w.len() < self.spec_min_points() ==> r.is_none()
                &&& w.len() >= self.spec_min_points() ==> r.is_some() && r.unwrap()@ == w
            }),
    {
        let mut out: Vec<VwapPoint> = Vec::new();
        let mut i: usize = 0;
        while i < series.len()
            invariant
                i <= series@.len(),
                out@ == window_of(series@.subrange(0, i as int), current_ts_ms, self.window_ms),
            decreases series@.len() - i,
        {
            let p = series[i];
            assert(series@.subrange(0, i + 1).drop_last() =~= series@.subrange(0, i as int));
            if p.timestamp_ms as u128 + self.window_ms as u128 >= current_ts_ms as u128 {
                out.push(p);
            }
            i = i + 1;
        }
        assert(series@.subrange(0, series@.len() as int) =~= series@);
        if out.len() < self.min_points {
            None
        } else {
            Some(out)
        }
    }

    /// Extrapolates the fitted line `horizon_ms` past its last point.
    pub fn predict(&self, fit: &FitResult, horizon_ms: u64) -> (r: i128)
        ensures
            r == predicted(*fit, horizon_ms),
    {
        let s: i128 = fit.slope as i128;
        assert(-0x8000000000000000int * 0xffff_ffff_ffff_ffffint <= s * horizon_ms
            <= 0x8000000000000000int * 0xffff_ffff_ffff_ffffint) by (nonlinear_arith)
            requires
                -0x8000000000000000int <= s <= 0x8000000000000000int,
                0 <= horizon_ms <= 0xffff_ffff_ffff_ffffint,
        ;
        let prod: i128 = s * horizon_ms as i128;
        let share: i128 = if prod >= 0 { prod / 1000 } else { -((-prod + 999) / 1000) };
        assert(share == prod / 1000) by (nonlinear_arith)
            requires
                prod >= 0 ==> share == prod / 1000,
                prod < 0 ==> share == -((-prod + 999) / 1000),
        ;
        fit.current_price as i128 + share
    }
}

} // verus!
