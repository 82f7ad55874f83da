//! Market-data interfaces: the candle data model and the configuration of
//! the remote price-history endpoints. The engine itself never performs the
//! HTTP exchange; a driver does, and hands the engine plain candles.

pub mod alpha_vantage;
pub mod candles;
pub mod polygon;
pub mod td_ameritrade;
