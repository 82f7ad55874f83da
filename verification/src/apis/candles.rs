//! One OHLCV price bar. Prices are held in cents so every comparison and
//! every cash movement downstream is exact.

use vstd::prelude::*;
use crate::clock::DateTime;

verus! {

/// One price bar: open/close/high/low in cents, the traded volume, and the
/// bar's timestamp in the exchange's local time.
#[derive(Clone, Copy, Debug, PartialEq, Eq, Structural)]
pub struct Candle {
    pub open: u64,
    pub close: u64,
    pub high: u64,
    pub low: u64,
    pub volume: i64,
    pub datetime: DateTime,
}

impl Candle {
    pub open spec fn wf(self) -> bool {
        self.datetime.wf()
    }

    pub fn new(open: u64, close: u64, high: u64, low: u64, volume: i64, datetime: DateTime) -> (r:
        Candle)
        ensures
            r == (Candle { open, close, high, low, volume, datetime }),
    {
        Candle { open, close, high, low, volume, datetime }
    }

    /// The bar closed above its open.
    pub fn is_bull(&self) -> (r: bool)
        ensures
            r == (self.close > self.open),
    {
        self.close > self.open
    }

    /// The bar closed below its open.
    pub fn is_bear(&self) -> (r: bool)
        ensures
            r == (self.close < self.open),
    {
        self.close < self.open
    }
}

} // verus!
