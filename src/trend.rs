use vstd::prelude::*;

verus! {

/// Direction read from recent order flow and the price's distance from VWAP.
#[derive(Clone, Copy, Debug, PartialEq, Eq, Structural)]
pub enum TrendState {
    Bullish,
    Bearish,
    Neutral,
}

} // verus!
