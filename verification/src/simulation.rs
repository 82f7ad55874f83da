//! The delayed-settlement broker used for realistic simulations: a cash
//! account where sale proceeds, less a flat commission, become spendable only
//! on the first trading weekday at least two calendar days after the sale.

use vstd::prelude::*;
use crate::clock::{
    DateTime, spec_settle_day, settle_day, day_of_week, time_from_hms, lemma_settle_day_props,
    spec_day_of_week,
};
use crate::trading::{Broker, OrderError, cap64};

verus! {

/// Flat commission charged on every sale, in cents.
pub const COMMISSION: u64 = 1;

/// A broker with T+2, weekday-adjusted settlement: `capital` is settled,
/// spendable cash; `unsettled_cash` holds the proceeds of the latest sale
/// until `settle_date`, when the first capital query at or after that day
/// rolls them into `capital` exactly once.
pub struct SimBroker {
    pub capital: u64,
    pub unsettled_cash: u64,
    pub settle_date: Option<i64>,
}

impl SimBroker {
    /// A simulation account starting with $1,000.00 of settled capital.
    pub fn new() -> (r: SimBroker)
        ensures
            r == (SimBroker {
                capital: 100_000u64,
                unsettled_cash: 0u64,
                settle_date: None::<i64>,
            }),
            r.inv(),
    {
        SimBroker { capital: 100_000, unsettled_cash: 0, settle_date: None }
    }
}

impl Broker for SimBroker {
    open spec fn inv(self) -> bool {
        self.unsettled_cash > 0 ==> self.settle_date is Some
    }

    open spec fn spec_roll(self, t: DateTime) -> SimBroker {
        if self.settle_date matches Some(sd) && t.day >= sd {
            SimBroker {
                capital: cap64(self.capital + self.unsettled_cash),
                unsettled_cash: 0u64,
                settle_date: self.settle_date,
            }
        } else {
            self
        }
    }

    open spec fn spec_capital(self, t: DateTime) -> int {
        self.spec_roll(t).capital as int
    }

    open spec fn spec_cash(self) -> int {
        self.capital as int
    }

    open spec fn spec_unsettled(self) -> int {
        self.unsettled_cash as int
    }

    open spec fn spec_after_buy(self, shares: int, price: int, t: DateTime) -> SimBroker {
        SimBroker { capital: (self.capital - price * shares) as u64, ..self }
    }

    open spec fn spec_after_sell(self, shares: int, price: int, t: DateTime) -> SimBroker {
        SimBroker {
            capital: self.capital,
            unsettled_cash: cap64(price * shares - COMMISSION),
            settle_date: Some(spec_settle_day(t.day as int) as i64),
        }
    }

    fn capital(&mut self, time: DateTime) -> (r: u64) {
        if let Some(sd) = self.settle_date {
            if time.date() >= sd {
                let total: u128 = self.capital as u128 + self.unsettled_cash as u128;
                self.capital = if total > u64::MAX as u128 {
                    u64::MAX
                } else {
                    total as u64
                };
                self.unsettled_cash = 0;
            }
        }
        self.capital
    }

    fn unsettled_cash(&self) -> (r: u64) {
        self.unsettled_cash
    }

    fn is_market_open(&self, datetime: DateTime) -> (r: bool) {
        let session_open = time_from_hms(9, 30, 0);
        let session_close = time_from_hms(16, 0, 0);
        let time = datetime.time();
        let dow = day_of_week(datetime.date());
        time >= session_open && time < session_close && dow < 6
    }

    fn buy_order(&mut self, ticker: &String, shares: i32, price: u64, time: DateTime) -> (r: Result<
        u64,
        OrderError,
    >) {
        if self.unsettled_cash > 0 {
            return Err(OrderError::SettlementPending);
        }
        proof {
            assert((price as int) * (shares as int) < 0x1_0000_0000_0000_0000_0000_0000int)
                by (nonlinear_arith)
                requires
                    0 <= price <= u64::MAX,
                    0 < shares <= i32::MAX,
            ;
        }
        let cost: u128 = (price as u128) * (shares as u128);
        if cost > self.capital as u128 {
            return Err(OrderError::InsufficientCapital);
        }
        self.capital = self.capital - (cost as u64);
        Ok(self.capital)
    }

    fn sell_order(&mut self, ticker: &String, shares: i32, price: u64, time: DateTime) {
        proof {
            assert((price as int) * (shares as int) < 0x1_0000_0000_0000_0000_0000_0000int)
                by (nonlinear_arith)
                requires
                    0 <= price <= u64::MAX,
                    0 < shares <= i32::MAX,
            ;
        }
        let gross: u128 = (price as u128) * (shares as u128);
        let net: u128 = if gross >= COMMISSION as u128 {
            gross - COMMISSION as u128
        } else {
            0
        };
        self.unsettled_cash = if net > u64::MAX as u128 {
            u64::MAX
        } else {
            net as u64
        };
        self.settle_date = Some(settle_day(time.date()));
    }
}

/// Cash bookkeeping of the delayed-settlement broker: an accepted buy debits
/// exactly the order's cost from the stored capital and touches neither the
/// pending proceeds nor the settlement schedule, while a sale leaves capital
/// untouched and parks the proceeds less commission as unsettled cash,
/// scheduled for the first trading weekday at least two calendar days after
/// the sale.
pub proof fn lemma_sim_broker_bookkeeping(b: SimBroker, shares: int, price: int, t: DateTime)
    requires
        0 < shares <= i32::MAX,
        0 <= price <= u64::MAX,
        t.wf(),
    ensures
        crate::trading::spec_buy_outcome(b, shares, price) is None ==> {
            let bought = b.spec_after_buy(shares, price, t);
            &&& bought.capital + price * shares == b.capital
            &&& bought.unsettled_cash == b.unsettled_cash
            &&& bought.settle_date == b.settle_date
        },
        ({
            let sold = b.spec_after_sell(shares, price, t);
            &&& sold.capital == b.capital
            &&& sold.unsettled_cash == cap64(price * shares - COMMISSION)
            &&& sold.settle_date matches Some(sd) && {
                &&& sd >= t.day + 2
                &&& 1 <= spec_day_of_week(sd as int) <= 5
                &&& forall|e: int| t.day + 2 <= e < sd ==> spec_day_of_week(e) > 5
            }
        }),
{
    lemma_settle_day_props(t.day as int);
}

/// A capital query never schedules settlement: rolling moves only proceeds
/// that a sale already scheduled, and leaves the settle date itself alone.
pub proof fn lemma_roll_preserves_schedule(b: SimBroker, t: DateTime)
    ensures
        b.spec_roll(t).settle_date == b.settle_date,
{
}

} // verus!
