use lfest::currency::{Decimal, QuoteCurrency};
use lfest::errors::Error;
use lfest::leverage::{ContractSpecification, Leverage};
use lfest::market_state::MarketState;

fn q(v: i64, s: u8) -> QuoteCurrency {
    QuoteCurrency::new(v, s)
}

#[test]
fn market_quote_updates() {
    let mut m = MarketState::new(0);
    assert_eq!(m.mid_price(), q(0, 0));
    assert_eq!(m.update_quote(q(100, 0), q(1001, 1), 5), Ok(()));
    assert_eq!(m.bid(), q(100, 0));
    assert_eq!(m.ask(), q(1001, 1));
    assert_eq!(m.timestamp(), 5);
    // (100 + 100.1) / 2 = 100.05
    assert_eq!(m.mid_price(), q(10005, 2));
    assert_eq!(m.update_quote(q(101, 0), q(100, 0), 6), Err(Error::CrossedBook));
    assert_eq!(m.update_quote(q(0, 0), q(100, 0), 6), Err(Error::InvalidPrice));
    assert_eq!(m.update_quote(q(99, 0), q(100, 0), 4), Err(Error::OutOfOrderTimestamp));
    assert_eq!(m.timestamp(), 5);
    assert_eq!(m.bid(), q(100, 0));
}

#[test]
fn market_mid_rounds_half_to_even() {
    let mut m = MarketState::new(0);
    // (0.001 + 0.002) / 2 = 0.0015 -> 0.002 ; (0.002 + 0.003) / 2 = 0.0025 -> 0.002
    m.update_quote(q(1, 3), q(2, 3), 1).unwrap();
    assert_eq!(m.mid_price(), q(2, 3));
    m.update_quote(q(2, 3), q(3, 3), 1).unwrap();
    assert_eq!(m.mid_price(), q(2, 3));
}

#[test]
fn market_trade_updates() {
    let mut m = MarketState::new(10);
    assert_eq!(m.update_trade(q(100, 0), 5, 10), Ok(()));
    assert_eq!(m.last_trade_price(), q(100, 0));
    assert_eq!(m.last_trade_size(), 5);
    assert_eq!(m.update_trade(q(100, 0), 0, 11), Err(Error::InvalidQuantity));
    assert_eq!(m.update_trade(q(-1, 0), 1, 11), Err(Error::InvalidPrice));
    assert_eq!(m.update_trade(q(100, 0), 1, 9), Err(Error::OutOfOrderTimestamp));
    assert_eq!(m.timestamp(), 10);
}

#[test]
fn leverage_bounds() {
    assert_eq!(Leverage::new(0), Err(Error::InvalidLeverage));
    assert_eq!(Leverage::new(126), Err(Error::InvalidLeverage));
    assert_eq!(Leverage::new(125).unwrap().get(), 125);
    assert_eq!(Leverage::new(1).unwrap().init_margin_req(), Decimal::try_from_scaled(1, 0).unwrap());
    assert_eq!(Leverage::new(5).unwrap().init_margin_req(), Decimal::try_from_scaled(2, 1).unwrap());
    assert_eq!(Leverage::new(3).unwrap().init_margin_req(), Decimal::try_from_scaled(333333, 6).unwrap());
    assert_eq!(Leverage::new(125).unwrap().init_margin_req(), Decimal::try_from_scaled(8, 3).unwrap());
}

#[test]
fn decimal_scales() {
    assert_eq!(Decimal::try_from_scaled(15, 1).unwrap().mantissa(), 1_500_000);
    assert_eq!(Decimal::try_from_scaled(1, 7), None);
    assert_eq!(Decimal::try_from_scaled(i64::MAX, 0), None);
}

#[test]
fn contract_specification_validation() {
    let d = |v: i64, s: u8| Decimal::try_from_scaled(v, s).unwrap();
    assert!(ContractSpecification::new(d(1, 1), d(2, 2)).is_ok());
    assert_eq!(ContractSpecification::new(d(1, 2), d(2, 2)), Err(Error::InvalidMargin));
    assert_eq!(ContractSpecification::new(d(0, 0), d(0, 0)), Err(Error::InvalidMargin));
    assert_eq!(ContractSpecification::new(d(2, 0), d(1, 1)), Err(Error::InvalidMargin));
}
