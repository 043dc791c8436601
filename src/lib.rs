//! Real-time market-data indicators for a single instrument: realized
//! volatility with staleness detection, tumbling-window VWAP, order-flow
//! imbalance inputs and impact price, trend-line point selection, the trend
//! entry/exit state machine, one-second candles and a volatility histogram.
//!
//! Prices and quantities are fixed-point integers with eight decimal places
//! (see `fixed::PRICE_SCALE`); times are milliseconds unless a name says
//! otherwise.

pub mod config;
pub mod fitter;
pub mod fixed;
pub mod kline;
pub mod models;
pub mod order_flow;
pub mod ring_buffer;
pub mod stats;
pub mod telemetry;
pub mod trend;
pub mod trend_state;
pub mod volatility;
pub mod vwap;
