//! The account core: the broker capability its settlement models implement,
//! the position lifecycle, and the candle feed the executor consumes. All
//! cash amounts are cents; every state change is pinned down by a spec-level
//! transformer so whole runs can be reasoned about as pure functions.

use vstd::prelude::*;
use crate::apis::candles::Candle;
use crate::clock::{DateTime, spec_market_open, FORCED_CLOSE_SECS};

verus! {

/// Why an order was not placed. All of these are expected market conditions
/// that a simulation absorbs and reports; none aborts a run.
#[derive(Clone, Copy, Debug, PartialEq, Eq, Structural)]
pub enum OrderError {
    /// Sizing produced zero or a negative number of shares.
    ZeroOrNegativeShares,
    /// The timestamp falls outside the trading session.
    MarketClosed,
    /// Proceeds of a prior sale have not settled yet.
    SettlementPending,
    /// The order would cost more than the spendable capital.
    InsufficientCapital,
    /// A position is already open; one position is in flight at a time.
    PositionAlreadyOpen,
}

/// An exact cash amount clamped into the `u64` range.
pub open spec fn cap64(x: int) -> u64 {
    if x > u64::MAX {
        u64::MAX
    } else if x < 0 {
        0u64
    } else {
        x as u64
    }
}

/// How trade proceeds become spendable capital. The two implementations are
/// the immediate-settlement backtest broker and the weekday-aware delayed
/// settlement broker; each pins its own transition functions, and the account
/// is verified against this interface alone.
pub trait Broker: Sized {
    /// Internal consistency of the broker's bookkeeping.
    spec fn inv(self) -> bool;

    /// The broker state after a capital query at `t`: settled proceeds may
    /// roll into capital.
    spec fn spec_roll(self, t: DateTime) -> Self;

    /// The spendable funds a capital query at `t` reports.
    spec fn spec_capital(self, t: DateTime) -> int;

    /// The settled, spendable funds as stored, without consulting the
    /// settlement schedule. Orders are checked against this: only a capital
    /// query moves pending proceeds.
    spec fn spec_cash(self) -> int;

    /// Proceeds pending settlement, not yet spendable.
    spec fn spec_unsettled(self) -> int;

    /// The broker state after an accepted buy of `shares` at `price` at `t`.
    spec fn spec_after_buy(self, shares: int, price: int, t: DateTime) -> Self;

    /// The broker state after a sale of `shares` at `price` at `t`.
    spec fn spec_after_sell(self, shares: int, price: int, t: DateTime) -> Self;

    /// Spendable funds at `time`, after rolling any settled proceeds in.
    fn capital(&mut self, time: DateTime) -> (r: u64)
        requires
            old(self).inv(),
            time.wf(),
        ensures
            final(self).inv(),
            *final(self) == old(self).spec_roll(time),
            r as int == old(self).spec_capital(time),
    ;

    /// Proceeds pending settlement.
    fn unsettled_cash(&self) -> (r: u64)
        requires
            self.inv(),
        ensures
            r as int == self.spec_unsettled(),
    ;

    /// Whether `datetime` falls inside the trading session: [09:30, 16:00)
    /// local time, Monday through Friday.
    fn is_market_open(&self, datetime: DateTime) -> (r: bool)
        requires
            datetime.wf(),
        ensures
            r == spec_market_open(datetime),
    ;

    /// Place a buy order, checked against the stored state: rejected while
    /// any proceeds are pending, or when the cost exceeds the stored
    /// spendable funds. Every rejection leaves the broker wholly unchanged;
    /// on success the remaining capital is returned. A buy never touches the
    /// settlement schedule — only a capital query settles.
    fn buy_order(&mut self, ticker: &String, shares: i32, price: u64, time: DateTime) -> (r: Result<
        u64,
        OrderError,
    >)
        requires
            old(self).inv(),
            shares > 0,
            time.wf(),
        ensures
            final(self).inv(),
            ({
                if old(self).spec_unsettled() > 0 {
                    r == Err::<u64, OrderError>(OrderError::SettlementPending) && *final(self)
                        == *old(self)
                } else if (price as int) * (shares as int) > old(self).spec_cash() {
                    r == Err::<u64, OrderError>(OrderError::InsufficientCapital) && *final(self)
                        == *old(self)
                } else {
                    &&& r is Ok
                    &&& r->Ok_0 as int == old(self).spec_cash() - (shares as int) * (
                    price as int)
                    &&& *final(self) == old(self).spec_after_buy(shares as int, price as int, time)
                }
            }),
    ;

    /// Record a sale. It always succeeds; what happens to the proceeds is the
    /// settlement model's affair.
    fn sell_order(&mut self, ticker: &String, shares: i32, price: u64, time: DateTime)
        requires
            old(self).inv(),
            shares > 0,
            time.wf(),
        ensures
            final(self).inv(),
            *final(self) == old(self).spec_after_sell(shares as int, price as int, time),
    ;
}

/// Whether a buy is accepted, per the cash-account rules and in the stated
/// order: rejected while any sale proceeds are pending — even ones whose
/// settle date has passed, since only a capital query settles — and
/// otherwise rejected when the cost exceeds the stored spendable funds. This
/// restates the condition in `Broker::buy_order`'s contract for
/// account-level reasoning.
pub open spec fn spec_buy_outcome<B: Broker>(b: B, shares: int, price: int) -> Option<
    OrderError,
> {
    if b.spec_unsettled() > 0 {
        Some(OrderError::SettlementPending)
    } else if price * shares > b.spec_cash() {
        Some(OrderError::InsufficientCapital)
    } else {
        None
    }
}

/// The model of one fill.
#[verifier::ext_equal]
pub ghost struct CloseM {
    pub shares: int,
    pub ask: int,
    pub time: DateTime,
}

/// The model of a position.
#[verifier::ext_equal]
pub ghost struct PosM {
    pub open: bool,
    pub shares: int,
    pub bid: int,
    pub time: DateTime,
    pub ticker: Seq<char>,
    pub closes: Seq<CloseM>,
}

/// The model of an account: its position history and its broker.
#[verifier::ext_equal]
#[verifier::reject_recursive_types(B)]
pub ghost struct AcctM<B> {
    pub positions: Seq<PosM>,
    pub broker: B,
}

/// One fill that closed a position: price, share count, timestamp.
#[derive(Clone, Copy, Debug, PartialEq, Eq, Structural)]
pub struct Close {
    pub shares: i32,
    pub ask: u64,
    pub time: DateTime,
}

impl View for Close {
    type V = CloseM;

    open spec fn view(&self) -> CloseM {
        CloseM { shares: self.shares as int, ask: self.ask as int, time: self.time }
    }
}

/// A position: entry data, the open/closed flag, and its fills. Created by
/// `Account::open_position`, closed by `Account::close_position`, and kept in
/// the account's history for reporting.
pub struct Position {
    pub open: bool,
    pub shares: i32,
    pub bid: u64,
    pub closes: Vec<Close>,
    pub time: DateTime,
    pub ticker: String,
}

impl View for Position {
    type V = PosM;

    open spec fn view(&self) -> PosM {
        PosM {
            open: self.open,
            shares: self.shares as int,
            bid: self.bid as int,
            time: self.time,
            ticker: self.ticker@,
            closes: self.closes@.map_values(|c: Close| c@),
        }
    }
}

/// A well-formed position: a positive share count, and, since the whole
/// position is sold in one fill, at most one close, absent while open, whose
/// share count matches the entry.
pub open spec fn spec_pos_wf(p: PosM) -> bool {
    &&& p.shares > 0
    &&& p.time.wf()
    &&& p.closes.len() <= 1
    &&& (p.open ==> p.closes.len() == 0)
    &&& forall|i: int|
        0 <= i < p.closes.len() ==> (#[trigger] p.closes[i]).shares == p.shares
            && p.closes[i].time.wf()
}

/// The sale value of the fills: sum of price times share count.
pub open spec fn spec_closes_value(cs: Seq<CloseM>) -> int
    decreases cs.len(),
{
    if cs.len() == 0 {
        0
    } else {
        cs[0].ask * cs[0].shares + spec_closes_value(cs.drop_first())
    }
}

/// What the position earned: sale value of its fills minus its entry cost.
pub open spec fn spec_total_return(p: PosM) -> int {
    spec_closes_value(p.closes) - p.bid * p.shares
}

pub open spec fn spec_pos_closed(p: PosM, ask: int, time: DateTime) -> PosM {
    PosM { open: false, closes: seq![CloseM { shares: p.shares, ask, time }], ..p }
}

impl Position {
    /// A freshly opened position.
    pub fn open(ticker: &String, shares: i32, bid: u64, time: DateTime) -> (r: Position)
        requires
            shares > 0,
            time.wf(),
        ensures
            r@ == (PosM {
                open: true,
                shares: shares as int,
                bid: bid as int,
                time,
                ticker: ticker@,
                closes: Seq::<CloseM>::empty(),
            }),
            spec_pos_wf(r@),
    {
        let r = Position {
            shares,
            bid,
            time,
            ticker: ticker.clone(),
            open: true,
            closes: Vec::new(),
        };
        proof {
            assert(r@.closes =~= Seq::<CloseM>::empty());
            assert(r@ =~= (PosM {
                open: true,
                shares: shares as int,
                bid: bid as int,
                time,
                ticker: ticker@,
                closes: Seq::<CloseM>::empty(),
            }));
        }
        r
    }

    /// Close the whole position with a single fill at `ask`.
    pub fn close(&mut self, ask: u64, time: DateTime)
        ensures
            final(self)@ == spec_pos_closed(old(self)@, ask as int, time),
    {
        self.open = false;
        self.closes = vec![Close { ask, time, shares: self.shares }];
        proof {
            assert(self@.closes =~= seq![
                CloseM { shares: old(self)@.shares, ask: ask as int, time },
            ]);
            assert(self@ =~= spec_pos_closed(old(self)@, ask as int, time));
        }
    }

    /// The realized return, in cents; negative for a losing trade.
    pub fn total_return(&self) -> (r: i128)
        requires
            spec_pos_wf(self@),
        ensures
            r == spec_total_return(self@),
    {
        let mut gross: i128 = 0;
        if self.closes.len() > 0 {
            let fill = self.closes[0];
            proof {
                assert(self@.closes[0] == self.closes@[0]@);
                assert((#[trigger] self@.closes[0]).shares == self@.shares);
                assert(0 <= (fill.ask as int) * (fill.shares as int)
                    < 0x8000_0000_0000_0000_0000_0000i128) by (nonlinear_arith)
                    requires
                        0 <= fill.ask <= u64::MAX,
                        0 < fill.shares <= i32::MAX,
                ;
                assert(self@.closes.drop_first() =~= Seq::<CloseM>::empty());
                assert(spec_closes_value(Seq::<CloseM>::empty()) == 0);
                assert(spec_closes_value(self@.closes) == self@.closes[0].ask
                    * self@.closes[0].shares);
            }
            gross = (fill.ask as i128) * (fill.shares as i128);
        }
        proof {
            assert(0 <= (self.bid as int) * (self.shares as int) < 0x8000_0000_0000_0000_0000_0000i128)
                by (nonlinear_arith)
                requires
                    0 <= self.bid <= u64::MAX,
                    0 < self.shares <= i32::MAX,
            ;
        }
        gross - (self.bid as i128) * (self.shares as i128)
    }
}

/// Whether the account currently holds an open position: the history's last
/// entry exists and is open.
pub open spec fn spec_is_open<B>(a: AcctM<B>) -> bool {
    a.positions.len() > 0 && a.positions.last().open
}

/// A well-formed account: a consistent broker, well-formed positions, and
/// every position but possibly the last one closed — so at most one position,
/// the most recent, is ever open.
pub open spec fn spec_acct_wf<B: Broker>(a: AcctM<B>) -> bool {
    &&& a.broker.inv()
    &&& forall|i: int| 0 <= i < a.positions.len() ==> spec_pos_wf(#[trigger] a.positions[i])
    &&& forall|i: int| 0 <= i < a.positions.len() - 1 ==> !(#[trigger] a.positions[i]).open
}

/// Which error, if any, an attempt to open a position draws.
pub open spec fn spec_open_outcome<B: Broker>(
    a: AcctM<B>,
    shares: int,
    price: int,
    t: DateTime,
) -> Option<OrderError> {
    if shares <= 0 {
        Some(OrderError::ZeroOrNegativeShares)
    } else if !spec_market_open(t) {
        Some(OrderError::MarketClosed)
    } else if spec_is_open(a) {
        Some(OrderError::PositionAlreadyOpen)
    } else {
        spec_buy_outcome(a.broker, shares, price)
    }
}

/// The account after an attempt to open a position: wholly unchanged —
/// position history and broker both — whenever the attempt is rejected, and
/// extended by a fresh open position when the buy goes through.
pub open spec fn spec_open_position<B: Broker>(
    a: AcctM<B>,
    ticker: Seq<char>,
    shares: int,
    price: int,
    t: DateTime,
) -> AcctM<B> {
    if spec_open_outcome(a, shares, price, t) is Some {
        a
    } else {
        AcctM {
            positions: a.positions.push(
                PosM {
                    open: true,
                    shares,
                    bid: price,
                    time: t,
                    ticker,
                    closes: Seq::<CloseM>::empty(),
                },
            ),
            broker: a.broker.spec_after_buy(shares, price, t),
        }
    }
}

/// The account after closing the open position at `ask`: the last position
/// gains its single fill and is marked closed, and the broker records the
/// sale.
pub open spec fn spec_close_position<B: Broker>(a: AcctM<B>, ask: int, t: DateTime) -> AcctM<B> {
    let i = a.positions.len() - 1;
    let p = a.positions[i];
    AcctM {
        positions: a.positions.update(i, spec_pos_closed(p, ask, t)),
        broker: a.broker.spec_after_sell(p.shares, ask, t),
    }
}

/// The account after the end-of-day check on `c`: if a position is open and
/// the bar's time has reached the forced-close cutoff, it is liquidated at
/// the bar's close; otherwise nothing changes.
pub open spec fn spec_close_for_day<B: Broker>(a: AcctM<B>, c: Candle) -> AcctM<B> {
    if spec_is_open(a) && c.datetime.secs >= FORCED_CLOSE_SECS {
        spec_close_position(a, c.close as int, c.datetime)
    } else {
        a
    }
}

/// The number of whole shares `capital` buys at `price`, clamped into `i32`;
/// a price of zero caps out, it does not divide.
pub open spec fn spec_max_shares(capital: int, price: int) -> int {
    if price <= 0 {
        i32::MAX as int
    } else if capital / price > i32::MAX {
        i32::MAX as int
    } else {
        capital / price
    }
}

/// An account: the ordered history of every position it opened — the open
/// position, if any, is the last entry — and the broker that settles its
/// orders.
pub struct Account<B> {
    pub positions: Vec<Position>,
    pub broker: B,
}

impl<B> View for Account<B> {
    type V = AcctM<B>;

    open spec fn view(&self) -> AcctM<B> {
        AcctM { positions: self.positions@.map_values(|p: Position| p@), broker: self.broker }
    }
}

impl<B: Broker> Account<B> {
    pub open spec fn wf(self) -> bool {
        spec_acct_wf(self@)
    }

    pub fn new(broker: B) -> (r: Account<B>)
        requires
            broker.inv(),
        ensures
            r@.positions == Seq::<PosM>::empty(),
            r@.broker == broker,
            r.wf(),
    {
        let r = Account { broker, positions: Vec::new() };
        proof {
            assert(r@.positions =~= Seq::<PosM>::empty());
        }
        r
    }

    /// Everything the account is worth in cash terms, each fund counted
    /// exactly once: the spendable capital at `time` — settling any due
    /// proceeds first — plus whatever is still pending after that, clamped
    /// into `u64`.
    pub fn total_cash(&mut self, time: DateTime) -> (r: u64)
        requires
            old(self).wf(),
            time.wf(),
        ensures
            final(self).wf(),
            final(self)@.positions == old(self)@.positions,
            final(self)@.broker == old(self)@.broker.spec_roll(time),
            r == cap64(
                old(self)@.broker.spec_capital(time) + old(self)@.broker.spec_roll(
                    time,
                ).spec_unsettled(),
            ),
    {
        let cap = self.broker.capital(time);
        let pending = self.broker.unsettled_cash();
        proof {
            assert(self@.positions =~= old(self)@.positions);
        }
        let sum: u128 = pending as u128 + cap as u128;
        if sum > u64::MAX as u128 {
            u64::MAX
        } else {
            sum as u64
        }
    }

    /// The largest whole number of shares the spendable capital at `time`
    /// buys at `price`.
    pub fn max_shares(&mut self, price: u64, time: DateTime) -> (r: i32)
        requires
            old(self).wf(),
            time.wf(),
        ensures
            final(self).wf(),
            final(self)@.positions == old(self)@.positions,
            final(self)@.broker == old(self)@.broker.spec_roll(time),
            r == spec_max_shares(old(self)@.broker.spec_capital(time), price as int),
    {
        let cap = self.broker.capital(time);
        proof {
            assert(self@.positions =~= old(self)@.positions);
        }
        if price == 0 {
            return i32::MAX;
        }
        let n = cap / price;
        if n > i32::MAX as u64 {
            i32::MAX
        } else {
            n as i32
        }
    }

    /// Try to open a position: `shares` at `bid` for `ticker` at `time`.
    /// Rejected with the exact reason when the share count is not positive,
    /// the market is closed, a position is already open, or the broker
    /// refuses the buy; each rejection leaves the whole account — position
    /// history and broker alike — exactly as it was.
    pub fn open_position(&mut self, ticker: &String, bid: u64, shares: i32, time: DateTime) -> (r:
        Result<(), OrderError>)
        requires
            old(self).wf(),
            time.wf(),
        ensures
            final(self).wf(),
            final(self)@ == spec_open_position(
                old(self)@,
                ticker@,
                shares as int,
                bid as int,
                time,
            ),
            (match spec_open_outcome(old(self)@, shares as int, bid as int, time) {
                Option::None => r is Ok,
                Option::Some(e) => r == Err::<(), OrderError>(e),
            }),
    {
        if shares <= 0 {
            return Err(OrderError::ZeroOrNegativeShares);
        }
        if !self.broker.is_market_open(time) {
            return Err(OrderError::MarketClosed);
        }
        if self.is_position_open() {
            return Err(OrderError::PositionAlreadyOpen);
        }
        match self.broker.buy_order(ticker, shares, bid, time) {
            Ok(_) => {
                let pos = Position::open(ticker, shares, bid, time);
                self.positions.push(pos);
                proof {
                    assert(self@.positions =~= old(self)@.positions.push(pos@));
                    assert(self@ =~= spec_open_position(
                        old(self)@,
                        ticker@,
                        shares as int,
                        bid as int,
                        time,
                    ));
                }
                Ok(())
            },
            Err(e) => {
                proof {
                    assert(self@ =~= spec_open_position(
                        old(self)@,
                        ticker@,
                        shares as int,
                        bid as int,
                        time,
                    ));
                }
                Err(e)
            },
        }
    }

    /// The most recent position, open or closed.
    pub fn current_position(&self) -> (r: Option<&Position>)
        ensures
            (match r {
                Option::Some(p) => self@.positions.len() > 0 && p@ == self@.positions.last(),
                Option::None => self@.positions.len() == 0,
            }),
    {
        if self.positions.len() > 0 {
            Some(&self.positions[self.positions.len() - 1])
        } else {
            None
        }
    }

    /// Close the open position at `ask`. Calling this with no open position
    /// is a caller bug; the precondition rules it out.
    pub fn close_position(&mut self, ticker: &String, ask: u64, time: DateTime)
        requires
            old(self).wf(),
            spec_is_open(old(self)@),
            time.wf(),
        ensures
            final(self).wf(),
            final(self)@ == spec_close_position(old(self)@, ask as int, time),
            !spec_is_open(final(self)@),
    {
        let mut position = self.positions.pop().unwrap();
        self.broker.sell_order(ticker, position.shares, ask, time);
        position.close(ask, time);
        self.positions.push(position);
        proof {
            assert(self@.positions =~= spec_close_position(old(self)@, ask as int, time).positions);
            assert(self@ =~= spec_close_position(old(self)@, ask as int, time));
        }
    }

    /// Whether the account holds an open position.
    pub fn is_position_open(&self) -> (r: bool)
        ensures
            r == spec_is_open(self@),
    {
        if self.positions.len() > 0 {
            self.positions[self.positions.len() - 1].open
        } else {
            false
        }
    }

    /// End-of-session safety valve: once a bar's time reaches 15:55:00, any
    /// open position is liquidated at that bar's close, independently of the
    /// strategy's own exit rule.
    pub fn close_position_for_day(&mut self, ticker: &String, candle: &Candle)
        requires
            old(self).wf(),
            candle.wf(),
        ensures
            final(self).wf(),
            final(self)@ == spec_close_for_day(old(self)@, *candle),
    {
        let close_time = crate::clock::time_from_hms(15, 55, 0);
        if self.is_position_open() && candle.datetime.time() >= close_time {
            self.close_position(ticker, candle.close, candle.datetime);
        }
    }
}

/// At most one position is ever open: any two open entries in a well-formed
/// account's history are the same entry.
pub proof fn lemma_at_most_one_open<B: Broker>(a: AcctM<B>)
    requires
        spec_acct_wf(a),
    ensures
        forall|i: int, j: int|
            0 <= i < a.positions.len() && 0 <= j < a.positions.len() && a.positions[i].open
                && a.positions[j].open ==> i == j,
{
    assert forall|i: int, j: int|
        0 <= i < a.positions.len() && 0 <= j < a.positions.len() && a.positions[i].open
            && a.positions[j].open implies i == j by {
        assert(i == a.positions.len() - 1);
        assert(j == a.positions.len() - 1);
    }
}

/// The market-hours gate on entries: outside the trading session, an attempt
/// to open a position changes nothing — neither the position history nor the
/// broker — and, for a positive share count, reports the market as closed.
pub proof fn lemma_market_hours_gate<B: Broker>(
    a: AcctM<B>,
    ticker: Seq<char>,
    shares: int,
    price: int,
    t: DateTime,
)
    requires
        !spec_market_open(t),
    ensures
        spec_open_position(a, ticker, shares, price, t) == a,
        shares > 0 ==> spec_open_outcome(a, shares, price, t) == Some(OrderError::MarketClosed),
{
}

/// The model of the candle feed: the loaded bars and the read cursor.
#[verifier::ext_equal]
pub ghost struct PriceDataM {
    pub candles: Seq<Candle>,
    pub current_index: int,
}

/// An already-materialized, time-ordered candle sequence being consumed in a
/// single forward pass. A driver fetches the bars; the engine only reads
/// them.
pub struct PriceData {
    pub candles: Vec<Candle>,
    pub current_index: usize,
}

impl View for PriceData {
    type V = PriceDataM;

    open spec fn view(&self) -> PriceDataM {
        PriceDataM { candles: self.candles@, current_index: self.current_index as int }
    }
}

impl PriceData {
    pub open spec fn wf(self) -> bool {
        &&& self@.current_index <= self@.candles.len()
        &&& forall|i: int| 0 <= i < self@.candles.len() ==> (#[trigger] self@.candles[i]).wf()
    }

    /// An empty feed; `history` loads it.
    pub fn new() -> (r: PriceData)
        ensures
            r@.candles == Seq::<Candle>::empty(),
            r@.current_index == 0,
            r.wf(),
    {
        let r = PriceData { candles: Vec::new(), current_index: 0 };
        proof {
            assert(r@.candles =~= Seq::<Candle>::empty());
        }
        r
    }

    /// Load a fetched candle sequence and hand back the first `bars` bars as
    /// the strategy's warm-up window, leaving the cursor just past them. A
    /// sequence too short to warm up is refused and nothing changes — a
    /// degenerate, trade-free run rather than an error.
    pub fn history(&mut self, candles: Vec<Candle>, bars: usize) -> (r: Option<Vec<Candle>>)
        requires
            old(self).wf(),
            forall|i: int| 0 <= i < candles@.len() ==> (#[trigger] candles@[i]).wf(),
        ensures
            final(self).wf(),
            candles@.len() >= bars ==> {
                &&& final(self)@.candles == candles@
                &&& final(self)@.current_index == bars
                &&& r matches Some(w) && w@ == candles@.subrange(0, bars as int)
            },
            candles@.len() < bars ==> r is None && *final(self) == *old(self),
    {
        if candles.len() < bars {
            return None;
        }
        let mut window: Vec<Candle> = Vec::new();
        let mut i: usize = 0;
        while i < bars
            invariant
                i <= bars,
                bars <= candles@.len(),
                window@ == candles@.subrange(0, i as int),
            decreases bars - i,
        {
            window.push(candles[i]);
            proof {
                assert(window@ =~= candles@.subrange(0, i + 1));
            }
            i = i + 1;
        }
        self.candles = candles;
        self.current_index = bars;
        Some(window)
    }

    /// The next unread bar, advancing the cursor; `None` once the feed is
    /// exhausted.
    pub fn next_candle(&mut self) -> (r: Option<Candle>)
        ensures
            final(self)@.candles == old(self)@.candles,
            old(self)@.current_index < old(self)@.candles.len() ==> {
                &&& r == Some(old(self)@.candles[old(self)@.current_index])
                &&& final(self)@.current_index == old(self)@.current_index + 1
            },
            old(self)@.current_index >= old(self)@.candles.len() ==> r is None && *final(self)
                == *old(self),
            old(self).wf() ==> final(self).wf(),
    {
        if self.current_index < self.candles.len() {
            let candle = self.candles[self.current_index];
            self.current_index = self.current_index + 1;
            Some(candle)
        } else {
            None
        }
    }
}

} // verus!
