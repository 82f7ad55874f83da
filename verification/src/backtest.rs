//! The immediate-settlement broker used for pure backtests: no commission
//! and no settlement delay; buys debit and sales credit capital on the spot,
//! and nothing is ever pending.

use vstd::prelude::*;
use crate::clock::{DateTime, day_of_week, time_from_hms};
use crate::trading::{Broker, OrderError, cap64};

verus! {

/// A broker whose capital is a plain stored value: buys debit it and sales
/// credit it synchronously, and unsettled cash is always zero.
pub struct BacktestBroker {
    pub capital: u64,
}

impl Broker for BacktestBroker {
    open spec fn inv(self) -> bool {
        true
    }

    open spec fn spec_roll(self, t: DateTime) -> BacktestBroker {
        self
    }

    open spec fn spec_capital(self, t: DateTime) -> int {
        self.capital as int
    }

    open spec fn spec_cash(self) -> int {
        self.capital as int
    }

    open spec fn spec_unsettled(self) -> int {
        0
    }

    open spec fn spec_after_buy(self, shares: int, price: int, t: DateTime) -> BacktestBroker {
        BacktestBroker { capital: (self.capital - price * shares) as u64 }
    }

    open spec fn spec_after_sell(self, shares: int, price: int, t: DateTime) -> BacktestBroker {
        BacktestBroker { capital: cap64(self.capital + price * shares) }
    }

    fn capital(&mut self, time: DateTime) -> (r: u64) {
        self.capital
    }

    fn unsettled_cash(&self) -> (r: u64) {
        0
    }

    fn is_market_open(&self, datetime: DateTime) -> (r: bool) {
        let session_open = time_from_hms(9, 30, 0);
        let session_close = time_from_hms(16, 0, 0);
        let time = datetime.time();
        let dow = day_of_week(datetime.date());
        time >= session_open && time < session_close && dow < 6
    }

    fn buy_order(&mut self, ticker: &String, shares: i32, price: u64, time: DateTime) -> (r: Result<
        u64,
        OrderError,
    >) {
        proof {
            assert((price as int) * (shares as int) < 0x1_0000_0000_0000_0000_0000_0000int)
                by (nonlinear_arith)
                requires
                    0 <= price <= u64::MAX,
                    0 < shares <= i32::MAX,
            ;
        }
        let cost: u128 = (price as u128) * (shares as u128);
        if cost > self.capital as u128 {
            return Err(OrderError::InsufficientCapital);
        }
        self.capital = self.capital - (cost as u64);
        Ok(self.capital)
    }

    fn sell_order(&mut self, ticker: &String, shares: i32, price: u64, time: DateTime) {
        proof {
            assert((price as int) * (shares as int) < 0x1_0000_0000_0000_0000_0000_0000int)
                by (nonlinear_arith)
                requires
                    0 <= price <= u64::MAX,
                    0 < shares <= i32::MAX,
            ;
        }
        let proceeds: u128 = (price as u128) * (shares as u128);
        let total: u128 = self.capital as u128 + proceeds;
        self.capital = if total > u64::MAX as u128 {
            u64::MAX
        } else {
            total as u64
        };
    }
}

} // verus!
