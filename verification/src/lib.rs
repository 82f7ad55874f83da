//! A trading-simulation engine: a streaming moving-average indicator, two
//! broker settlement models (immediate and weekday-aware delayed settlement),
//! an account that owns the open/closed position lifecycle, and a strategy
//! executor that drives a candle stream through all of them.

pub mod apis;
pub mod backtest;
pub mod clock;
pub mod simulation;
pub mod strategies;
pub mod studies;
pub mod trading;
