use lfest::accounting::{EXCHANGE_FEE_ACCOUNT, TREASURY_ACCOUNT};
use lfest::currency::{BaseCurrency, Decimal, MarginCurrency, QuoteCurrency};
use lfest::errors::Error;
use lfest::exchange::Exchange;
use lfest::leverage::{ContractSpecification, Leverage};
use lfest::order_book::{Fill, Side};

fn q(v: i64, s: u8) -> QuoteCurrency {
    QuoteCurrency::new(v, s)
}

fn b(v: i64, s: u8) -> BaseCurrency {
    BaseCurrency::new(v, s)
}

fn rate(v: i64, s: u8) -> Decimal {
    Decimal::try_from_scaled(v, s).unwrap()
}

fn linear(leverage: u8, taker: Decimal) -> Exchange<BaseCurrency> {
    let spec = ContractSpecification::new(rate(2, 1), rate(2, 2)).unwrap();
    Exchange::new(q(1000, 0), Leverage::new(leverage).unwrap(), spec, rate(-2, 4), taker, 10)
}

fn conserved(ex: &Exchange<BaseCurrency>) -> i64 {
    (0..4).map(|a| ex.accounting().margin_balance_of(a).unwrap().mantissa()).sum()
}

#[test]
fn exchange_round_trip_with_profit() {
    let mut ex = linear(1, rate(0, 0));
    assert_eq!(ex.update_quote(q(100, 0), q(100, 0), 1), Ok(false));
    assert_eq!(ex.submit_market_order(Side::Buy, b(5, 1)), Ok(()));
    assert_eq!(ex.position().quantity(), b(5, 1));
    assert_eq!(ex.accounting().wallet(), q(950, 0));
    assert_eq!(ex.update_quote(q(110, 0), q(110, 0), 2), Ok(false));
    assert_eq!(ex.submit_market_order(Side::Sell, b(5, 1)), Ok(()));
    assert_eq!(ex.position().quantity(), b(0, 0));
    assert_eq!(ex.accounting().wallet(), q(1005, 0));
    assert_eq!(ex.accounting().position_margin(), q(0, 0));
    assert_eq!(conserved(&ex), 1_000_000);
}

#[test]
fn exchange_liquidates_on_breach() {
    let mut ex = linear(5, rate(6, 4));
    ex.update_quote(q(100, 0), q(100, 0), 1).unwrap();
    ex.submit_market_order(Side::Buy, b(5, 0)).unwrap();
    assert_eq!(ex.accounting().position_margin(), q(100, 0));
    assert_eq!(ex.position().outstanding_fees(), q(3, 1));
    assert_eq!(ex.update_quote(q(90, 0), q(90, 0), 2), Ok(false));
    assert_eq!(ex.update_quote(q(81, 0), q(81, 0), 3), Ok(true));
    assert_eq!(ex.position().quantity(), b(0, 0));
    assert_eq!(ex.accounting().position_margin(), q(0, 0));
    // 1000 - 95 of loss - 0.3 of opening fee - 0.243 of liquidation fee
    assert_eq!(ex.accounting().wallet(), q(904457, 3));
    assert_eq!(ex.accounting().margin_balance_of(TREASURY_ACCOUNT), Ok(q(95, 0)));
    assert_eq!(ex.accounting().margin_balance_of(EXCHANGE_FEE_ACCOUNT), Ok(q(543, 3)));
    assert_eq!(conserved(&ex), 1_000_000);
    // nothing left to liquidate
    assert_eq!(ex.update_quote(q(50, 0), q(50, 0), 4), Ok(false));
}

#[test]
fn exchange_flip_splits_the_fill() {
    let mut ex = linear(1, rate(0, 0));
    ex.update_quote(q(100, 0), q(100, 0), 1).unwrap();
    ex.submit_market_order(Side::Buy, b(1, 0)).unwrap();
    assert_eq!(ex.direction(), 1);
    ex.submit_market_order(Side::Sell, b(3, 0)).unwrap();
    assert_eq!(ex.direction(), -1);
    assert_eq!(ex.position().quantity(), b(2, 0));
    assert_eq!(ex.position().entry_price(), q(100, 0));
    assert_eq!(ex.accounting().position_margin(), q(200, 0));
    assert_eq!(ex.accounting().wallet(), q(800, 0));
    // the short gains when the price falls
    ex.update_quote(q(90, 0), q(90, 0), 2).unwrap();
    ex.submit_market_order(Side::Buy, b(2, 0)).unwrap();
    assert_eq!(ex.accounting().wallet(), q(1020, 0));
    assert_eq!(conserved(&ex), 1_000_000);
}

#[test]
fn exchange_order_errors() {
    let mut ex = linear(1, rate(0, 0));
    assert_eq!(ex.submit_market_order(Side::Buy, b(1, 0)), Err(Error::InvalidPrice));
    ex.update_quote(q(100, 0), q(101, 0), 1).unwrap();
    assert_eq!(ex.submit_market_order(Side::Buy, b(0, 0)), Err(Error::InvalidQuantity));
    assert_eq!(ex.submit_market_order(Side::Buy, b(11, 0)), Err(Error::InsufficientBalance));
    assert_eq!(ex.position().quantity(), b(0, 0));
    assert_eq!(ex.update_quote(q(102, 0), q(101, 0), 2), Err(Error::CrossedBook));
    assert_eq!(ex.update_quote(q(100, 0), q(101, 0), 0), Err(Error::OutOfOrderTimestamp));
    assert_eq!(ex.market_state().timestamp(), 1);
}

#[test]
fn exchange_limit_orders_fill_on_trade_prints() {
    let mut ex = linear(1, rate(6, 4));
    ex.update_quote(q(100, 0), q(101, 0), 1).unwrap();
    // a bid below the ask rests
    assert_eq!(ex.submit_limit_order(Side::Buy, q(99, 0), b(2, 0)), Ok(Some(0)));
    assert_eq!(ex.submit_limit_order(Side::Buy, q(98, 0), b(1, 0)), Ok(Some(1)));
    assert_eq!(ex.order_book().bids().len(), 2);
    assert_eq!(ex.position().quantity(), b(0, 0));
    // a print at 99 of size 1 fills half the best bid as maker
    let r = ex.update_trade(q(99, 0), 1000, 2);
    assert_eq!(r, Ok((false, vec![Fill { order_id: 0, price: 99_000, quantity: 1000 }])));
    assert_eq!(ex.position().quantity(), b(1, 0));
    assert_eq!(ex.position().entry_price(), q(99, 0));
    // the maker rebate of 0.0002 * 99 = 0.0198 accrues, rounded to 0.020
    assert_eq!(ex.position().outstanding_fees(), q(-2, 2));
    assert_eq!(ex.accounting().wallet(), q(901, 0));
    // a print at 97 of size 5 fills the rest of both bids
    let r = ex.update_trade(q(97, 0), 5000, 3);
    assert_eq!(
        r,
        Ok((
            false,
            vec![
                Fill { order_id: 0, price: 99_000, quantity: 1000 },
                Fill { order_id: 1, price: 98_000, quantity: 1000 },
            ]
        ))
    );
    assert_eq!(ex.position().quantity(), b(3, 0));
    assert_eq!(ex.position().entry_price(), q(98667, 3));
    assert_eq!(ex.order_book().bids().len(), 0);
    assert_eq!(conserved(&ex), 1_000_000);
}

#[test]
fn exchange_crossing_limit_order_is_taker() {
    let mut ex = linear(1, rate(6, 4));
    ex.update_quote(q(100, 0), q(101, 0), 1).unwrap();
    assert_eq!(ex.submit_limit_order(Side::Buy, q(102, 0), b(1, 0)), Ok(None));
    assert_eq!(ex.position().quantity(), b(1, 0));
    assert_eq!(ex.position().entry_price(), q(101, 0));
    assert_eq!(ex.order_book().bids().len(), 0);
    assert_eq!(ex.submit_limit_order(Side::Sell, q(105, 0), b(1, 0)), Ok(Some(0)));
    assert_eq!(ex.cancel_order(0), Ok(()));
    assert_eq!(ex.cancel_order(0), Err(Error::UnknownOrder));
    assert_eq!(ex.submit_limit_order(Side::Sell, q(0, 0), b(1, 0)), Err(Error::InvalidPrice));
    assert_eq!(ex.update_trade(q(100, 0), 0, 2), Err(Error::InvalidQuantity));
}

#[test]
fn exchange_trade_print_records_market_even_when_fill_fails() {
    let mut ex = linear(1, rate(6, 4));
    ex.update_quote(q(100, 0), q(101, 0), 1).unwrap();
    assert_eq!(ex.submit_limit_order(Side::Buy, q(99, 0), b(20, 0)), Ok(Some(0)));
    // the fill would lock 1980 of margin against a wallet of 1000
    assert_eq!(ex.update_trade(q(99, 0), 20_000, 5), Err(Error::InsufficientBalance));
    assert_eq!(ex.market_state().timestamp(), 5);
    assert_eq!(ex.market_state().last_trade_price(), q(99, 0));
    assert_eq!(ex.position().quantity(), b(0, 0));
    assert_eq!(ex.accounting().wallet(), q(1000, 0));
    assert_eq!(conserved(&ex), 1_000_000);
}
