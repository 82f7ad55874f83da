use tradesim::apis::candles::Candle;
use tradesim::backtest::BacktestBroker;
use tradesim::clock::{datetime, day_of_week, time_from_hms};
use tradesim::simulation::SimBroker;
use tradesim::strategies::{Sma9CrossesSma180, SmaCrossover};
use tradesim::trading::{Account, Broker, OrderError, PriceData};

fn bar(open: u64, close: u64, y: i32, mo: u32, d: u32, h: u32, mi: u32, s: u32) -> Candle {
    Candle::new(open, close, open.max(close), open.min(close), 100, datetime(y, mo, d, h, mi, s))
}

#[test]
fn day_numbers_follow_the_calendar() {
    // 2020-09-25 was a Friday, 2020-09-26 a Saturday, 2020-09-27 a Sunday
    assert_eq!(day_of_week(datetime(2020, 9, 25, 0, 0, 0).date()), 5);
    assert_eq!(day_of_week(datetime(2020, 9, 26, 0, 0, 0).date()), 6);
    assert_eq!(day_of_week(datetime(2020, 9, 27, 0, 0, 0).date()), 7);
    // three calendar days after Friday is Monday, one day number at a time
    assert_eq!(
        datetime(2020, 9, 25, 10, 0, 0).add_days(3).date(),
        datetime(2020, 9, 28, 10, 0, 0).date()
    );
    // a leap day exists in 2020 and has its own day number
    assert_eq!(datetime(2020, 2, 29, 0, 0, 0).add_days(1).date(), datetime(2020, 3, 1, 0, 0, 0).date());
}

#[test]
fn time_of_day_is_seconds_since_midnight() {
    assert_eq!(time_from_hms(9, 30, 0), 34200);
    assert_eq!(time_from_hms(16, 0, 0), 57600);
    assert_eq!(datetime(2020, 9, 25, 15, 55, 0).time(), 57300);
}

#[test]
fn open_position_reports_each_rejection_reason() {
    let ticker = "ABC".to_string();
    let open_hours = datetime(2020, 9, 29, 10, 0, 0);
    let mut acct = Account::new(SimBroker::new());

    assert_eq!(
        acct.open_position(&ticker, 1000, 0, open_hours),
        Err(OrderError::ZeroOrNegativeShares)
    );
    assert_eq!(
        acct.open_position(&ticker, 1000, 1, datetime(2020, 9, 26, 10, 0, 0)),
        Err(OrderError::MarketClosed)
    );
    assert_eq!(
        acct.open_position(&ticker, 200_000, 1, open_hours),
        Err(OrderError::InsufficientCapital)
    );
    assert_eq!(acct.open_position(&ticker, 1000, 5, open_hours), Ok(()));
    assert_eq!(
        acct.open_position(&ticker, 1000, 1, open_hours),
        Err(OrderError::PositionAlreadyOpen)
    );
    acct.close_position(&ticker, 1000, datetime(2020, 9, 29, 10, 1, 0));
    assert_eq!(
        acct.open_position(&ticker, 1000, 1, datetime(2020, 9, 29, 10, 2, 0)),
        Err(OrderError::SettlementPending)
    );
}

#[test]
fn capital_and_unsettled_cash_bookkeeping() {
    // starting capital $100.00; buy 5 shares at $10.00; sell at $11.00
    let ticker = "ABC".to_string();
    let broker = SimBroker {
        capital: 10000,
        unsettled_cash: 0,
        settle_date: None,
    };
    let mut acct = Account::new(broker);
    let buy_time = datetime(2020, 9, 29, 10, 0, 0);

    assert_eq!(acct.open_position(&ticker, 1000, 5, buy_time), Ok(()));
    assert_eq!(acct.broker.capital(buy_time), 5000);
    assert_eq!(acct.broker.unsettled_cash(), 0);

    acct.close_position(&ticker, 1100, datetime(2020, 9, 29, 10, 1, 0));
    // proceeds 5 * $11.00 less the $0.01 commission
    assert_eq!(acct.broker.unsettled_cash(), 5499);
    // capital unchanged until settlement
    assert_eq!(acct.broker.capital(datetime(2020, 9, 30, 10, 0, 0)), 5000);
    // total worth counts every fund exactly once, before, at, and after the
    // settle date (T+2 from Tuesday is Thursday, October 1st)
    assert_eq!(acct.total_cash(datetime(2020, 9, 30, 10, 0, 0)), 10499);
    assert_eq!(acct.total_cash(datetime(2020, 10, 1, 10, 0, 0)), 10499);
    assert_eq!(acct.broker.unsettled_cash(), 0);
    assert_eq!(acct.total_cash(datetime(2020, 10, 2, 10, 0, 0)), 10499);
}

#[test]
fn buy_is_rejected_on_the_stored_state_and_changes_nothing() {
    let ticker = "ABC".to_string();
    let mut acct = Account::new(SimBroker::new());
    // Thursday: buy the whole capital, sell it back; settlement lands Monday
    let _ = acct.open_position(&ticker, 10000, 10, datetime(2020, 9, 24, 10, 0, 0));
    acct.close_position(&ticker, 10000, datetime(2020, 9, 24, 10, 0, 1));
    let monday = datetime(2020, 9, 28, 0, 0, 0).date();
    assert_eq!(acct.broker.settle_date, Some(monday));

    // Tuesday: the proceeds are due, but nothing has queried capital, so the
    // stored state still has them pending — the buy is rejected and the
    // broker is left exactly as it was
    let res = acct.open_position(&ticker, 1000, 1, datetime(2020, 9, 29, 10, 0, 0));
    assert_eq!(res, Err(OrderError::SettlementPending));
    assert_eq!(acct.broker.capital, 0);
    assert_eq!(acct.broker.unsettled_cash(), 99999);
    assert_eq!(acct.broker.settle_date, Some(monday));

    // a rejected buy for insufficient funds leaves the broker unchanged too
    let mut poor = Account::new(SimBroker {
        capital: 500,
        unsettled_cash: 0,
        settle_date: None,
    });
    let res = poor.open_position(&ticker, 1000, 1, datetime(2020, 9, 29, 10, 0, 0));
    assert_eq!(res, Err(OrderError::InsufficientCapital));
    assert_eq!(poor.broker.capital, 500);
    assert_eq!(poor.broker.settle_date, None);

    // a capital query settles the due proceeds; then the buy goes through
    assert_eq!(acct.broker.capital(datetime(2020, 9, 29, 10, 0, 0)), 99999);
    let res = acct.open_position(&ticker, 1000, 1, datetime(2020, 9, 29, 10, 0, 1));
    assert_eq!(res, Ok(()));
    assert_eq!(acct.broker.capital, 98999);
}

#[test]
fn backtest_broker_settles_immediately_without_commission() {
    let ticker = "ABC".to_string();
    let now = datetime(2020, 9, 29, 10, 0, 0);
    let mut acct = Account::new(BacktestBroker { capital: 100_000 });

    assert_eq!(acct.open_position(&ticker, 10000, 10, now), Ok(()));
    assert_eq!(acct.broker.capital(now), 0);
    assert_eq!(acct.broker.unsettled_cash(), 0);
    acct.close_position(&ticker, 10100, datetime(2020, 9, 29, 10, 1, 0));
    assert_eq!(acct.broker.capital(now), 101_000);
    assert_eq!(acct.broker.unsettled_cash(), 0);
}

#[test]
fn price_data_refuses_a_feed_shorter_than_the_warmup() {
    let mut pd = PriceData::new();
    let candles = vec![bar(1000, 1000, 2020, 9, 29, 9, 30, 0)];
    assert!(pd.history(candles, 9).is_none());
    assert!(pd.next_candle().is_none());
}

#[test]
fn price_data_hands_out_candles_once_in_order() {
    let mut pd = PriceData::new();
    let candles = vec![
        bar(1000, 1001, 2020, 9, 29, 9, 30, 0),
        bar(1001, 1002, 2020, 9, 29, 9, 31, 0),
        bar(1002, 1003, 2020, 9, 29, 9, 32, 0),
    ];
    let warmup = pd.history(candles, 2).unwrap();
    assert_eq!(warmup.len(), 2);
    assert_eq!(warmup[1].close, 1002);
    let next = pd.next_candle().unwrap();
    assert_eq!(next.close, 1003);
    assert!(pd.next_candle().is_none());
    assert!(pd.next_candle().is_none());
}

fn crossover_fixture() -> Vec<Candle> {
    // eight closes at $10.10, one dip to $9.20: SMA 1000, last close below it
    let mut candles = Vec::new();
    for i in 0..8 {
        candles.push(bar(1010, 1010, 2020, 9, 29, 9, 30 + i, 0));
    }
    candles.push(bar(1000, 920, 2020, 9, 29, 9, 38, 0));
    // bullish close back above the SMA: entry
    candles.push(bar(950, 1100, 2020, 9, 29, 10, 0, 0));
    // bearish close below the SMA: exit
    candles.push(bar(1100, 900, 2020, 9, 29, 10, 1, 0));
    candles
}

#[test]
fn crossover_strategy_trades_the_signal_round_trip() {
    let ticker = "ABC".to_string();
    let mut acct = Account::new(SimBroker::new());
    let mut pd = PriceData::new();
    let warmup = pd.history(crossover_fixture(), 9).unwrap();
    let mut strategy = SmaCrossover::new(&ticker, &warmup);

    strategy.execute(&mut pd, &mut acct);

    assert_eq!(acct.positions.len(), 1);
    assert_eq!(acct.positions[0].open, false);
    assert_eq!(acct.positions[0].shares, 90); // 100000 / 1100
    assert_eq!(acct.positions[0].bid, 1100);
    // bought 90 at $11.00 (cost 99000), sold at $9.00 (proceeds 81000 - 1)
    assert_eq!(acct.positions[0].total_return(), -18000);
    assert_eq!(acct.broker.unsettled_cash(), 80999);
    assert_eq!(acct.broker.capital(datetime(2020, 9, 29, 10, 2, 0)), 1000);
    // T+2 from Tuesday is Thursday, a weekday
    assert_eq!(acct.broker.capital(datetime(2020, 10, 1, 9, 30, 0)), 81999);
}

#[test]
fn rerunning_the_executor_is_deterministic() {
    let ticker = "ABC".to_string();
    let mut outcomes = Vec::new();
    for _ in 0..2 {
        let mut acct = Account::new(SimBroker::new());
        let mut pd = PriceData::new();
        let warmup = pd.history(crossover_fixture(), 9).unwrap();
        let mut strategy = SmaCrossover::new(&ticker, &warmup);
        strategy.execute(&mut pd, &mut acct);
        let trades: Vec<(bool, i32, u64)> = acct
            .positions
            .iter()
            .map(|p| (p.open, p.shares, p.bid))
            .collect();
        let capital = acct.broker.capital(datetime(2020, 10, 1, 9, 30, 0));
        outcomes.push((trades, capital, acct.broker.unsettled_cash()));
    }
    assert_eq!(outcomes[0], outcomes[1]);
}

#[test]
fn position_stays_open_before_the_forced_close_cutoff() {
    let ticker = "ABC".to_string();
    let mut acct = Account::new(SimBroker::new());
    let _ = acct.open_position(&ticker, 10000, 10, datetime(2020, 9, 24, 10, 0, 0));

    let early = Candle::new(0, 10100, 0, 0, 0, datetime(2020, 9, 24, 15, 54, 59));
    acct.close_position_for_day(&ticker, &early);
    assert_eq!(acct.positions[0].open, true);

    let late = Candle::new(0, 10100, 0, 0, 0, datetime(2020, 9, 24, 15, 55, 0));
    acct.close_position_for_day(&ticker, &late);
    assert_eq!(acct.positions[0].open, false);
}

#[test]
fn dual_average_strategy_enters_on_the_crossover() {
    let ticker = "ABC".to_string();
    // long flat stretch at $10.00, then nine bars at $9.00: the 9-bar
    // average starts below the 180-bar average, so the setup is armed
    let mut candles = Vec::new();
    for i in 0..171 {
        candles.push(bar(1000, 1000, 2020, 9, 21, 9, 30 + (i / 60), i % 60));
    }
    for i in 0..9 {
        candles.push(bar(900, 900, 2020, 9, 21, 13, 0, i));
    }
    // a spike drags the short average above the long one: entry
    candles.push(bar(1900, 2000, 2020, 9, 21, 14, 0, 0));

    let mut acct = Account::new(SimBroker::new());
    let mut pd = PriceData::new();
    let warmup = pd.history(candles, 180).unwrap();
    let mut strategy = Sma9CrossesSma180::new(&ticker, &warmup);
    assert!(strategy.setup_found());
    assert!(!strategy.entry_signal());

    strategy.execute(&mut pd, &mut acct);
    assert_eq!(acct.positions.len(), 1);
    assert_eq!(acct.positions[0].open, true);
    assert_eq!(acct.positions[0].shares, 50); // 100000 / 2000
    assert_eq!(acct.broker.capital(datetime(2020, 9, 21, 14, 1, 0)), 0);
}

#[test]
fn clients_carry_their_endpoint_configuration() {
    let alpha = tradesim::apis::alpha_vantage::client("alpha-key".to_string());
    assert_eq!(alpha.api_key, "alpha-key");
    assert_eq!(alpha.base_url, "https://www.alphavantage.co/query");
    let polygon = tradesim::apis::polygon::client("poly-key".to_string());
    assert_eq!(polygon.api_key, "poly-key");
    assert_eq!(polygon.base_url, "https://api.polygon.io/v2");
    let td = tradesim::apis::td_ameritrade::client(
        "td-id".to_string(),
        "td-access".to_string(),
        "td-refresh".to_string(),
    );
    assert_eq!(td.client_id, "td-id");
    assert_eq!(td.access_token, "td-access");
    assert_eq!(td.refresh_token, "td-refresh");
    assert_eq!(td.base_url, "https://api.tdameritrade.com/v1");
}

#[test]
fn candle_direction_predicates() {
    let up = bar(1000, 1100, 2020, 9, 29, 10, 0, 0);
    assert!(up.is_bull());
    assert!(!up.is_bear());
    let down = bar(1100, 1000, 2020, 9, 29, 10, 1, 0);
    assert!(down.is_bear());
    assert!(!down.is_bull());
    let flat = bar(1000, 1000, 2020, 9, 29, 10, 2, 0);
    assert!(!flat.is_bull());
    assert!(!flat.is_bear());
}

#[test]
fn current_position_tracks_the_latest_entry() {
    let ticker = "ABC".to_string();
    let mut acct = Account::new(SimBroker::new());
    assert!(acct.current_position().is_none());
    assert!(!acct.is_position_open());
    let _ = acct.open_position(&ticker, 1000, 5, datetime(2020, 9, 29, 10, 0, 0));
    assert!(acct.is_position_open());
    let current = acct.current_position().unwrap();
    assert_eq!(current.open, true);
    assert_eq!(current.shares, 5);
    assert_eq!(current.ticker, "ABC");
    acct.close_position(&ticker, 1100, datetime(2020, 9, 29, 10, 1, 0));
    assert!(!acct.is_position_open());
    assert_eq!(acct.current_position().unwrap().open, false);
}

#[test]
fn max_shares_caps_and_floors() {
    let mut acct = Account::new(SimBroker {
        capital: 999,
        unsettled_cash: 0,
        settle_date: None,
    });
    let t = datetime(2020, 9, 29, 10, 0, 0);
    assert_eq!(acct.max_shares(1000, t), 0);
    assert_eq!(acct.max_shares(1, t), 999);
    assert_eq!(acct.max_shares(0, t), i32::MAX);
}
