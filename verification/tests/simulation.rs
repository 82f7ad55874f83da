use tradesim::apis::candles::Candle;
use tradesim::clock::datetime;
use tradesim::simulation::SimBroker;
use tradesim::trading::{Account, Broker, Position};

#[test]
fn max_shares_returns_whole_number_of_purchaseable_shares_for_price() {
    let mut acct = Account::new(SimBroker::new());
    assert_eq!(acct.max_shares(1231, datetime(2020, 9, 29, 9, 30, 0)), 81);
}

#[test]
fn cannot_open_position_without_shares() {
    let ticker = "ABC".to_string();
    let mut acct = Account::new(SimBroker::new());
    let _ = acct.open_position(&ticker, 1000, 0, datetime(2020, 9, 29, 9, 30, 0));
    assert_eq!(acct.positions.len(), 0);
}

#[test]
fn cannot_open_position_without_enough_capital() {
    let ticker = "ABC".to_string();
    let broker = SimBroker {
        capital: 599,
        unsettled_cash: 0,
        settle_date: None,
    };
    let mut acct = Account::new(broker);
    let _ = acct.open_position(&ticker, 1000, 11, datetime(2020, 9, 29, 9, 31, 0));
    assert_eq!(acct.positions.len(), 0);
}

#[test]
fn cannot_open_position_outside_of_market_hours() {
    let ticker = "ABC".to_string();
    let mut acct = Account::new(SimBroker::new());
    let _ = acct.open_position(&ticker, 1000, 1, datetime(2020, 9, 29, 9, 29, 59));
    assert_eq!(acct.positions.len(), 0);
}

#[test]
fn close_position_puts_return_into_unsettled_cash_minus_commission() {
    let date = datetime(2020, 9, 29, 9, 30, 0);
    let ticker = "ABC".to_string();
    let mut acct = Account::new(SimBroker::new());
    let _ = acct.open_position(&ticker, 1000, 5, date);
    acct.close_position(&ticker, 1100, datetime(2020, 9, 29, 9, 31, 0));
    assert_eq!(acct.broker.unsettled_cash(), 5499);
    assert_eq!(acct.broker.capital(datetime(2020, 9, 29, 9, 30, 0)), 95000);
}

#[test]
fn position_provides_return_value() {
    let ticker = "ABC".to_string();
    let mut position = Position::open(&ticker, 10, 500, datetime(2020, 9, 29, 9, 31, 0));
    position.close(600, datetime(2020, 9, 29, 9, 31, 0));
    let total_return = position.total_return();
    assert_eq!(total_return, 1000);
}

#[test]
fn market_hours() {
    let broker = SimBroker::new();
    let time = datetime(2020, 9, 29, 9, 30, 00);
    assert_eq!(broker.is_market_open(time), true);
}

#[test]
fn pre_market_hours() {
    let broker = SimBroker::new();
    let time = datetime(2020, 9, 29, 9, 29, 59);
    assert_eq!(broker.is_market_open(time), false);
}

#[test]
fn post_market_hours() {
    let broker = SimBroker::new();
    let time = datetime(2020, 9, 29, 16, 0, 0);
    assert_eq!(broker.is_market_open(time), false);
}

#[test]
fn saturday_is_outside_market_hours() {
    let broker = SimBroker::new();
    let time = datetime(2020, 9, 26, 10, 0, 0);
    assert_eq!(broker.is_market_open(time), false);
}

#[test]
fn sunday_is_outside_market_hours() {
    let broker = SimBroker::new();
    let time = datetime(2020, 9, 27, 10, 0, 0);
    assert_eq!(broker.is_market_open(time), false);
}

#[test]
fn closing_position_on_friday_puts_settle_date_on_monday() {
    let ticker = "ABC".to_string();
    let mut acct = Account::new(SimBroker::new());
    let close_time = datetime(2020, 9, 25, 10, 0, 1);

    let _ = acct.open_position(&ticker, 10000, 10, datetime(2020, 9, 25, 10, 0, 0));
    acct.close_position(&ticker, 10000, close_time);
    assert_eq!(acct.broker.capital(close_time), 0);
    assert_eq!(acct.broker.capital(close_time.add_days(1)), 0);
    assert_eq!(acct.broker.capital(close_time.add_days(2)), 0);
    assert_eq!(acct.broker.capital(close_time.add_days(3)), 99999);
}

#[test]
fn closing_position_on_thursday_puts_settle_date_on_monday() {
    let ticker = "ABC".to_string();
    let mut acct = Account::new(SimBroker::new());
    let close_time = datetime(2020, 9, 24, 10, 0, 1);

    let _ = acct.open_position(&ticker, 10000, 10, datetime(2020, 9, 24, 10, 0, 0));
    acct.close_position(&ticker, 10000, close_time);
    assert_eq!(acct.broker.capital(close_time), 0);
    assert_eq!(acct.broker.capital(close_time.add_days(1)), 0);
    assert_eq!(acct.broker.capital(close_time.add_days(2)), 0);
    assert_eq!(acct.broker.capital(close_time.add_days(3)), 0);
    assert_eq!(acct.broker.capital(close_time.add_days(4)), 99999);
}

#[test]
fn account_will_close_open_position_within_five_minutes_of_market_close() {
    let ticker = "ABC".to_string();
    let mut acct = Account::new(SimBroker::new());
    let candle_time = datetime(2020, 9, 24, 15, 55, 00);
    let candle = Candle::new(0, 10100, 0, 0, 0, candle_time);

    let _ = acct.open_position(&ticker, 10000, 10, datetime(2020, 9, 24, 10, 0, 0));
    acct.close_position_for_day(&ticker, &candle);
    assert_eq!(acct.positions[0].open, false);
}
