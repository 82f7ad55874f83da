//! The strategy executors. Each consumes the candle feed in a single forward
//! pass, keeps its indicators streaming, and drives the account through
//! entries, exits and the end-of-day forced close. A whole run is pinned to a
//! pure fold over the candle sequence, so two runs from equal starting states
//! are provably identical.

use vstd::prelude::*;
use crate::apis::candles::Candle;
use crate::studies::{
    SMA, SmaM, Mean, spec_sma_add, spec_sma_init, spec_sma_run, spec_sma_wf, spec_below_mean,
    spec_above_mean, spec_mean_above, spec_mean_below, price_below_mean, price_above_mean,
    mean_above, mean_below, lemma_sma_run_snoc, lemma_sma_sliding_window,
};
use crate::trading::{
    Account, AcctM, Broker, PriceData, spec_open_position, spec_close_position, spec_close_for_day,
    spec_is_open, spec_max_shares,
};

verus! {

/// The closing prices of a candle sequence, in order.
pub open spec fn closes_of(cs: Seq<Candle>) -> Seq<u64> {
    cs.map_values(|c: Candle| c.close)
}

/// The model of the SMA-crossover strategy's state.
#[verifier::ext_equal]
pub ghost struct CrossM {
    pub setup: bool,
    pub sma: SmaM,
    pub ticker: Seq<char>,
}

/// Strategy and account together: the state one bar of a run transforms.
#[verifier::ext_equal]
#[verifier::reject_recursive_types(B)]
pub ghost struct CrossRunState<B> {
    pub strat: CrossM,
    pub acct: AcctM<B>,
}

/// Buy when the close crosses back above the 9-bar SMA on a bullish bar
/// after the setup dip; sell when the close falls below it on a bearish bar.
pub struct SmaCrossover {
    pub setup: bool,
    pub sma9: SMA,
    pub ticker: String,
}

impl View for SmaCrossover {
    type V = CrossM;

    open spec fn view(&self) -> CrossM {
        CrossM { setup: self.setup, sma: self.sma9@, ticker: self.ticker@ }
    }
}

/// Entry: the bar closes above the SMA, is bullish, and the setup is armed.
pub open spec fn spec_entry_signal(m: CrossM, c: Candle) -> bool {
    m.sma.value matches Some(v) && spec_above_mean(c.close as int, v) && c.close > c.open && m.setup
}

/// Exit: the bar closes below the SMA and is bearish.
pub open spec fn spec_exit_signal(m: CrossM, c: Candle) -> bool {
    m.sma.value matches Some(v) && spec_below_mean(c.close as int, v) && c.close < c.open
}

/// Re-arm: the bar closes below the SMA.
pub open spec fn spec_setup_found(m: CrossM, c: Candle) -> bool {
    m.sma.value matches Some(v) && spec_below_mean(c.close as int, v)
}

/// One bar of the crossover strategy: feed the close into the SMA, fire at
/// most one of entry / exit / re-arm — in that priority order — and finish
/// with the end-of-day check.
pub open spec fn spec_cross_step<B: Broker>(st: CrossRunState<B>, c: Candle) -> CrossRunState<B> {
    let s1 = CrossM { sma: spec_sma_add(st.strat.sma, c.close), ..st.strat };
    let a = st.acct;
    let mid = if spec_entry_signal(s1, c) {
        let shares = spec_max_shares(a.broker.spec_capital(c.datetime), c.close as int);
        let rolled = AcctM { positions: a.positions, broker: a.broker.spec_roll(c.datetime) };
        CrossRunState {
            strat: CrossM { setup: false, ..s1 },
            acct: spec_open_position(rolled, s1.ticker, shares, c.close as int, c.datetime),
        }
    } else if spec_exit_signal(s1, c) && spec_is_open(a) {
        CrossRunState { strat: s1, acct: spec_close_position(a, c.close as int, c.datetime) }
    } else if spec_setup_found(s1, c) && !spec_is_open(a) {
        CrossRunState { strat: CrossM { setup: true, ..s1 }, acct: a }
    } else {
        CrossRunState { strat: s1, acct: a }
    };
    CrossRunState { strat: mid.strat, acct: spec_close_for_day(mid.acct, c) }
}

/// A whole run: the fold of `spec_cross_step` over the candles, oldest first.
pub open spec fn spec_cross_run<B: Broker>(
    st: CrossRunState<B>,
    candles: Seq<Candle>,
) -> CrossRunState<B>
    decreases candles.len(),
{
    if candles.len() == 0 {
        st
    } else {
        spec_cross_run(spec_cross_step(st, candles[0]), candles.drop_first())
    }
}

impl SmaCrossover {
    /// A warmed-up strategy: the SMA window is full, so it always has a value.
    pub open spec fn wf(self) -> bool {
        &&& spec_sma_wf(self@.sma)
        &&& self@.sma.bars == 9
        &&& self@.sma.buffer.len() == 9
    }

    /// Warm the strategy up on the first candles of the feed: feed every
    /// close into the SMA and arm the setup exactly when the window's last
    /// close sits below the resulting average.
    pub fn new(ticker: &String, candles: &Vec<Candle>) -> (r: SmaCrossover)
        requires
            candles@.len() >= 9,
        ensures
            r@.ticker == ticker@,
            r@.sma == spec_sma_run(spec_sma_init(9), closes_of(candles@)),
            r@.setup == spec_below_mean(candles@.last().close as int, r@.sma.value->0),
            r.wf(),
    {
        let ghost closes = closes_of(candles@);
        let mut sma9 = SMA::new(9);
        let mut i: usize = 0;
        while i < candles.len()
            invariant
                i <= candles@.len(),
                closes == closes_of(candles@),
                sma9@ == spec_sma_run(spec_sma_init(9), closes.take(i as int)),
                sma9.wf(),
            decreases candles@.len() - i,
        {
            proof {
                assert(closes.take(i + 1) =~= closes.take(i as int).push(closes[i as int]));
                lemma_sma_run_snoc(spec_sma_init(9), closes.take(i as int), closes[i as int]);
                assert(closes[i as int] == candles@[i as int].close);
            }
            sma9.add(candles[i].close);
            i = i + 1;
        }
        proof {
            assert(closes.take(candles@.len() as int) =~= closes);
            lemma_sma_sliding_window(9, closes);
        }
        let value = sma9.value.unwrap();
        let last = candles[candles.len() - 1];
        proof {
            assert(last.close == closes.last());
        }
        SmaCrossover { setup: price_below_mean(last.close, &value), sma9, ticker: ticker.clone() }
    }

    pub fn entry_signal(&mut self, candle: &Candle) -> (r: bool)
        requires
            old(self).wf(),
        ensures
            *final(self) == *old(self),
            r == spec_entry_signal(old(self)@, *candle),
    {
        let sma9_value = self.sma9.value.unwrap();
        price_above_mean(candle.close, &sma9_value) && candle.is_bull() && self.setup
    }

    pub fn exit_signal(&mut self, candle: &Candle) -> (r: bool)
        requires
            old(self).wf(),
        ensures
            *final(self) == *old(self),
            r == spec_exit_signal(old(self)@, *candle),
    {
        let sma9_value = self.sma9.value.unwrap();
        price_below_mean(candle.close, &sma9_value) && candle.is_bear()
    }

    pub fn setup_found(&mut self, candle: &Candle) -> (r: bool)
        requires
            old(self).wf(),
        ensures
            *final(self) == *old(self),
            r == spec_setup_found(old(self)@, *candle),
    {
        let sma9_value = self.sma9.value.unwrap();
        price_below_mean(candle.close, &sma9_value)
    }

    /// Consume the rest of the candle feed, one forward pass, and leave the
    /// strategy and the account exactly where the pure fold of the per-bar
    /// step lands them.
    pub fn execute<B: Broker>(&mut self, price_data: &mut PriceData, account: &mut Account<B>)
        requires
            old(self).wf(),
            old(price_data).wf(),
            old(account).wf(),
        ensures
            final(self).wf(),
            final(account).wf(),
            final(price_data).wf(),
            final(price_data)@.candles == old(price_data)@.candles,
            final(price_data)@.current_index == old(price_data)@.candles.len(),
            ({
                let end = spec_cross_run(
                    CrossRunState { strat: old(self)@, acct: old(account)@ },
                    old(price_data)@.candles.skip(old(price_data)@.current_index),
                );
                final(self)@ == end.strat && final(account)@ == end.acct
            }),
    {
        let ghost candles0 = price_data@.candles;
        let ghost idx0 = price_data@.current_index;
        let ghost st0 = CrossRunState::<B> { strat: self@, acct: account@ };
        while price_data.current_index < price_data.candles.len()
            invariant
                self.wf(),
                account.wf(),
                price_data.wf(),
                price_data@.candles == candles0,
                idx0 <= price_data@.current_index <= candles0.len(),
                spec_cross_run(st0, candles0.skip(idx0)) == spec_cross_run(
                    CrossRunState::<B> { strat: self@, acct: account@ },
                    candles0.skip(price_data@.current_index),
                ),
            decreases candles0.len() - price_data@.current_index,
        {
            let ghost prev = CrossRunState::<B> { strat: self@, acct: account@ };
            let ghost idx = price_data@.current_index;
            let candle = price_data.next_candle().unwrap();
            proof {
                assert(candles0.skip(idx)[0] == candles0[idx]);
                assert(candles0.skip(idx).drop_first() =~= candles0.skip(idx + 1));
            }
            self.sma9.add(candle.close);
            let ghost s1 = CrossM { sma: spec_sma_add(prev.strat.sma, candle.close), ..prev.strat };
            proof {
                assert(self@ =~= s1);
            }
            if self.entry_signal(&candle) {
                let shares = account.max_shares(candle.close, candle.datetime);
                let ghost rolled = AcctM {
                    positions: prev.acct.positions,
                    broker: prev.acct.broker.spec_roll(candle.datetime),
                };
                proof {
                    assert(account@ =~= rolled);
                }
                let _ = account.open_position(&self.ticker, candle.close, shares, candle.datetime);
                self.setup = false;
            } else if self.exit_signal(&candle) && account.is_position_open() {
                account.close_position(&self.ticker, candle.close, candle.datetime);
            } else if self.setup_found(&candle) && !account.is_position_open() {
                self.setup = true;
            }
            let ghost mid = CrossRunState::<B> { strat: self@, acct: account@ };
            account.close_position_for_day(&self.ticker, &candle);
            proof {
                assert(self@ =~= spec_cross_step(prev, candle).strat);
                assert(account@ =~= spec_cross_step(prev, candle).acct);
                assert(CrossRunState::<B> { strat: self@, acct: account@ } =~= spec_cross_step(
                    prev,
                    candle,
                ));
            }
        }
        proof {
            assert(candles0.skip(candles0.len() as int) =~= Seq::<Candle>::empty());
        }
    }
}

/// The model of the two-average strategy's state.
#[verifier::ext_equal]
pub ghost struct DualM {
    pub setup: bool,
    pub sma9: SmaM,
    pub sma180: SmaM,
    pub ticker: Seq<char>,
}

/// Strategy and account together for the two-average strategy.
#[verifier::ext_equal]
#[verifier::reject_recursive_types(B)]
pub ghost struct DualRunState<B> {
    pub strat: DualM,
    pub acct: AcctM<B>,
}

/// Buy when the 9-bar SMA crosses above the 180-bar SMA after sitting below
/// it; sell when the close falls below the 9-bar SMA on a bearish bar.
pub struct Sma9CrossesSma180 {
    pub setup: bool,
    pub sma9: SMA,
    pub sma180: SMA,
    pub ticker: String,
}

impl View for Sma9CrossesSma180 {
    type V = DualM;

    open spec fn view(&self) -> DualM {
        DualM { setup: self.setup, sma9: self.sma9@, sma180: self.sma180@, ticker: self.ticker@ }
    }
}

/// Entry: the short average sits above the long one and the setup is armed.
pub open spec fn spec_dual_entry(m: DualM) -> bool {
    m.sma9.value matches Some(v9) && m.sma180.value matches Some(v180) && spec_mean_above(v9, v180)
        && m.setup
}

/// Exit: the bar closes below the short average and is bearish.
pub open spec fn spec_dual_exit(m: DualM, c: Candle) -> bool {
    m.sma9.value matches Some(v) && spec_below_mean(c.close as int, v) && c.close < c.open
}

/// Re-arm: the short average sits below the long one.
pub open spec fn spec_dual_setup(m: DualM) -> bool {
    m.sma9.value matches Some(v9) && m.sma180.value matches Some(v180) && spec_mean_below(v9, v180)
}

/// One bar of the two-average strategy, in the same shape as the crossover
/// step: update both averages, fire at most one branch, then the end-of-day
/// check.
pub open spec fn spec_dual_step<B: Broker>(st: DualRunState<B>, c: Candle) -> DualRunState<B> {
    let s1 = DualM {
        sma9: spec_sma_add(st.strat.sma9, c.close),
        sma180: spec_sma_add(st.strat.sma180, c.close),
        ..st.strat
    };
    let a = st.acct;
    let mid = if spec_dual_entry(s1) {
        let shares = spec_max_shares(a.broker.spec_capital(c.datetime), c.close as int);
        let rolled = AcctM { positions: a.positions, broker: a.broker.spec_roll(c.datetime) };
        DualRunState {
            strat: DualM { setup: false, ..s1 },
            acct: spec_open_position(rolled, s1.ticker, shares, c.close as int, c.datetime),
        }
    } else if spec_dual_exit(s1, c) && spec_is_open(a) {
        DualRunState { strat: s1, acct: spec_close_position(a, c.close as int, c.datetime) }
    } else if spec_dual_setup(s1) && !spec_is_open(a) {
        DualRunState { strat: DualM { setup: true, ..s1 }, acct: a }
    } else {
        DualRunState { strat: s1, acct: a }
    };
    DualRunState { strat: mid.strat, acct: spec_close_for_day(mid.acct, c) }
}

/// A whole run of the two-average strategy.
pub open spec fn spec_dual_run<B: Broker>(
    st: DualRunState<B>,
    candles: Seq<Candle>,
) -> DualRunState<B>
    decreases candles.len(),
{
    if candles.len() == 0 {
        st
    } else {
        spec_dual_run(spec_dual_step(st, candles[0]), candles.drop_first())
    }
}

impl Sma9CrossesSma180 {
    /// Both windows are full, so both averages always have a value.
    pub open spec fn wf(self) -> bool {
        &&& spec_sma_wf(self@.sma9)
        &&& self@.sma9.bars == 9
        &&& self@.sma9.buffer.len() == 9
        &&& spec_sma_wf(self@.sma180)
        &&& self@.sma180.bars == 180
        &&& self@.sma180.buffer.len() == 180
    }

    /// Warm both averages up on the first candles of the feed and arm the
    /// setup exactly when the short average starts below the long one.
    pub fn new(ticker: &String, candles: &Vec<Candle>) -> (r: Sma9CrossesSma180)
        requires
            candles@.len() >= 180,
        ensures
            r@.ticker == ticker@,
            r@.sma9 == spec_sma_run(spec_sma_init(9), closes_of(candles@)),
            r@.sma180 == spec_sma_run(spec_sma_init(180), closes_of(candles@)),
            r@.setup == spec_mean_below(r@.sma9.value->0, r@.sma180.value->0),
            r.wf(),
    {
        let ghost closes = closes_of(candles@);
        let mut sma9 = SMA::new(9);
        let mut sma180 = SMA::new(180);
        let mut i: usize = 0;
        while i < candles.len()
            invariant
                i <= candles@.len(),
                closes == closes_of(candles@),
                sma9@ == spec_sma_run(spec_sma_init(9), closes.take(i as int)),
                sma180@ == spec_sma_run(spec_sma_init(180), closes.take(i as int)),
                sma9.wf(),
                sma180.wf(),
            decreases candles@.len() - i,
        {
            proof {
                assert(closes.take(i + 1) =~= closes.take(i as int).push(closes[i as int]));
                lemma_sma_run_snoc(spec_sma_init(9), closes.take(i as int), closes[i as int]);
                lemma_sma_run_snoc(spec_sma_init(180), closes.take(i as int), closes[i as int]);
                assert(closes[i as int] == candles@[i as int].close);
            }
            sma9.add(candles[i].close);
            sma180.add(candles[i].close);
            i = i + 1;
        }
        proof {
            assert(closes.take(candles@.len() as int) =~= closes);
            lemma_sma_sliding_window(9, closes);
            lemma_sma_sliding_window(180, closes);
        }
        let v9 = sma9.value.unwrap();
        let v180 = sma180.value.unwrap();
        proof {
            lemma_dual_products_fit(v9, v180);
        }
        let setup = mean_below(&v9, &v180);
        Sma9CrossesSma180 { setup, sma9, sma180, ticker: ticker.clone() }
    }

    pub fn entry_signal(&self) -> (r: bool)
        requires
            self.wf(),
        ensures
            r == spec_dual_entry(self@),
    {
        let v9 = self.sma9.value.unwrap();
        let v180 = self.sma180.value.unwrap();
        proof {
            lemma_dual_products_fit(v9, v180);
        }
        mean_above(&v9, &v180) && self.setup
    }

    pub fn exit_signal(&self, candle: &Candle) -> (r: bool)
        requires
            self.wf(),
        ensures
            r == spec_dual_exit(self@, *candle),
    {
        let v9 = self.sma9.value.unwrap();
        price_below_mean(candle.close, &v9) && candle.is_bear()
    }

    pub fn setup_found(&self) -> (r: bool)
        requires
            self.wf(),
        ensures
            r == spec_dual_setup(self@),
    {
        let v9 = self.sma9.value.unwrap();
        let v180 = self.sma180.value.unwrap();
        proof {
            lemma_dual_products_fit(v9, v180);
        }
        mean_below(&v9, &v180)
    }

    /// Consume the rest of the candle feed, one forward pass, and leave the
    /// strategy and the account exactly where the pure fold of the per-bar
    /// step lands them.
    pub fn execute<B: Broker>(&mut self, price_data: &mut PriceData, account: &mut Account<B>)
        requires
            old(self).wf(),
            old(price_data).wf(),
            old(account).wf(),
        ensures
            final(self).wf(),
            final(account).wf(),
            final(price_data).wf(),
            final(price_data)@.candles == old(price_data)@.candles,
            final(price_data)@.current_index == old(price_data)@.candles.len(),
            ({
                let end = spec_dual_run(
                    DualRunState { strat: old(self)@, acct: old(account)@ },
                    old(price_data)@.candles.skip(old(price_data)@.current_index),
                );
                final(self)@ == end.strat && final(account)@ == end.acct
            }),
    {
        let ghost candles0 = price_data@.candles;
        let ghost idx0 = price_data@.current_index;
        let ghost st0 = DualRunState::<B> { strat: self@, acct: account@ };
        while price_data.current_index < price_data.candles.len()
            invariant
                self.wf(),
                account.wf(),
                price_data.wf(),
                price_data@.candles == candles0,
                idx0 <= price_data@.current_index <= candles0.len(),
                spec_dual_run(st0, candles0.skip(idx0)) == spec_dual_run(
                    DualRunState::<B> { strat: self@, acct: account@ },
                    candles0.skip(price_data@.current_index),
                ),
            decreases candles0.len() - price_data@.current_index,
        {
            let ghost prev = DualRunState::<B> { strat: self@, acct: account@ };
            let ghost idx = price_data@.current_index;
            let candle = price_data.next_candle().unwrap();
            proof {
                assert(candles0.skip(idx)[0] == candles0[idx]);
                assert(candles0.skip(idx).drop_first() =~= candles0.skip(idx + 1));
            }
            self.sma9.add(candle.close);
            self.sma180.add(candle.close);
            let ghost s1 = DualM {
                sma9: spec_sma_add(prev.strat.sma9, candle.close),
                sma180: spec_sma_add(prev.strat.sma180, candle.close),
                ..prev.strat
            };
            proof {
                assert(self@ =~= s1);
            }
            if self.entry_signal() {
                let shares = account.max_shares(candle.close, candle.datetime);
                let ghost rolled = AcctM {
                    positions: prev.acct.positions,
                    broker: prev.acct.broker.spec_roll(candle.datetime),
                };
                proof {
                    assert(account@ =~= rolled);
                }
                let _ = account.open_position(&self.ticker, candle.close, shares, candle.datetime);
                self.setup = false;
            } else if self.exit_signal(&candle) && account.is_position_open() {
                account.close_position(&self.ticker, candle.close, candle.datetime);
            } else if self.setup_found() && !account.is_position_open() {
                self.setup = true;
            }
            account.close_position_for_day(&self.ticker, &candle);
            proof {
                assert(self@ =~= spec_dual_step(prev, candle).strat);
                assert(account@ =~= spec_dual_step(prev, candle).acct);
                assert(DualRunState::<B> { strat: self@, acct: account@ } =~= spec_dual_step(
                    prev,
                    candle,
                ));
            }
        }
        proof {
            assert(candles0.skip(candles0.len() as int) =~= Seq::<Candle>::empty());
        }
    }
}

/// The cross-multiplied comparisons of a 9-bar and a 180-bar average fit
/// comfortably in `u128`.
proof fn lemma_dual_products_fit(v9: Mean, v180: Mean)
    requires
        v9.sum <= 9 * (u64::MAX as int),
        v9.count <= 180,
        v180.sum <= 180 * (u64::MAX as int),
        v180.count <= 180,
    ensures
        (v9.sum as int) * (v180.count as int) <= u128::MAX as int,
        (v180.sum as int) * (v9.count as int) <= u128::MAX as int,
{
    assert((v9.sum as int) * (v180.count as int) <= u128::MAX as int) by (nonlinear_arith)
        requires
            0 <= v9.sum <= 9 * (u64::MAX as int),
            0 <= v180.count <= 180,
    ;
    assert((v180.sum as int) * (v9.count as int) <= u128::MAX as int) by (nonlinear_arith)
        requires
            0 <= v180.sum <= 180 * (u64::MAX as int),
            0 <= v9.count <= 180,
    ;
}

/// Determinism of a crossover run: the outcome is a pure function of the
/// starting state and the candle sequence, so re-running the executor on the
/// same candles from the same strategy and account state yields the same
/// position history (the ordered trade list) and the same broker state.
pub proof fn lemma_cross_run_deterministic<B: Broker>(
    st1: CrossRunState<B>,
    st2: CrossRunState<B>,
    candles1: Seq<Candle>,
    candles2: Seq<Candle>,
)
    requires
        st1 == st2,
        candles1 == candles2,
    ensures
        spec_cross_run(st1, candles1) == spec_cross_run(st2, candles2),
{
}

/// Determinism of a two-average run, as for the crossover run.
pub proof fn lemma_dual_run_deterministic<B: Broker>(
    st1: DualRunState<B>,
    st2: DualRunState<B>,
    candles1: Seq<Candle>,
    candles2: Seq<Candle>,
)
    requires
        st1 == st2,
        candles1 == candles2,
    ensures
        spec_dual_run(st1, candles1) == spec_dual_run(st2, candles2),
{
}

/// End-of-day forced close: whatever the strategy's own signals did on a bar
/// timestamped at or after 15:55:00, no position is open once the bar has
/// been processed.
pub proof fn lemma_cross_step_flat_at_end_of_day<B: Broker>(st: CrossRunState<B>, c: Candle)
    requires
        c.datetime.secs >= crate::clock::FORCED_CLOSE_SECS,
    ensures
        !spec_is_open(spec_cross_step(st, c).acct),
{
}

/// End-of-day forced close for the two-average strategy.
pub proof fn lemma_dual_step_flat_at_end_of_day<B: Broker>(st: DualRunState<B>, c: Candle)
    requires
        c.datetime.secs >= crate::clock::FORCED_CLOSE_SECS,
    ensures
        !spec_is_open(spec_dual_step(st, c).acct),
{
}

/// The market-hours gate over a whole bar: on a bar timestamped outside the
/// trading session, a step that starts with no open position opens none and
/// records no sale — the position history comes out unchanged, and the
/// broker is at most settlement-rolled by the sizing query, which schedules
/// nothing new.
pub proof fn lemma_cross_step_gated_outside_hours<B: Broker>(st: CrossRunState<B>, c: Candle)
    requires
        !crate::clock::spec_market_open(c.datetime),
        !spec_is_open(st.acct),
    ensures
        spec_cross_step(st, c).acct.positions == st.acct.positions,
        spec_cross_step(st, c).acct.broker == st.acct.broker || spec_cross_step(st, c).acct.broker
            == st.acct.broker.spec_roll(c.datetime),
{
}

/// The market-hours gate over a whole bar of the two-average strategy.
pub proof fn lemma_dual_step_gated_outside_hours<B: Broker>(st: DualRunState<B>, c: Candle)
    requires
        !crate::clock::spec_market_open(c.datetime),
        !spec_is_open(st.acct),
    ensures
        spec_dual_step(st, c).acct.positions == st.acct.positions,
        spec_dual_step(st, c).acct.broker == st.acct.broker || spec_dual_step(st, c).acct.broker
            == st.acct.broker.spec_roll(c.datetime),
{
}

} // verus!
