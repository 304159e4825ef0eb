use lfest::currency::{BaseCurrency, Currency, QuoteCurrency};
use lfest::errors::Error;
use lfest::futures_type::FuturesTypes;

#[test]
fn futures_type_pnl_linear() {
    let ft = FuturesTypes::Linear;

    assert_eq!(
        ft.pnl(QuoteCurrency::new(100, 0), QuoteCurrency::new(110, 0), BaseCurrency::new(10, 0)),
        QuoteCurrency::new(100, 0)
    );
    assert_eq!(
        ft.pnl(QuoteCurrency::new(100, 0), QuoteCurrency::new(110, 0), BaseCurrency::new(-10, 0)),
        QuoteCurrency::new(-100, 0)
    );
    assert_eq!(
        ft.pnl(QuoteCurrency::new(100, 0), QuoteCurrency::new(90, 0), BaseCurrency::new(10, 0)),
        QuoteCurrency::new(-100, 0)
    );
    assert_eq!(
        ft.pnl(QuoteCurrency::new(100, 0), QuoteCurrency::new(90, 0), BaseCurrency::new(-10, 0)),
        QuoteCurrency::new(100, 0)
    );
}

#[test]
fn futures_type_pnl_inverse() {
    let ft = FuturesTypes::Inverse;

    assert_eq!(
        ft.pnl(QuoteCurrency::new(100, 0), QuoteCurrency::new(110, 0), QuoteCurrency::new(1000, 0)),
        BaseCurrency::new(909, 3)
    );
    assert_eq!(
        ft.pnl(QuoteCurrency::new(100, 0), QuoteCurrency::new(110, 0), QuoteCurrency::new(-1000, 0)),
        BaseCurrency::new(-909, 3)
    );
    assert_eq!(
        ft.pnl(QuoteCurrency::new(100, 0), QuoteCurrency::new(90, 0), QuoteCurrency::new(1000, 0)),
        BaseCurrency::new(-1111, 3)
    );
    assert_eq!(
        ft.pnl(QuoteCurrency::new(100, 0), QuoteCurrency::new(90, 0), QuoteCurrency::new(-1000, 0)),
        BaseCurrency::new(1111, 3)
    );
}

#[test]
fn pnl_long_and_short_cancel() {
    let ft = FuturesTypes::Linear;
    let e = QuoteCurrency::new(1003, 1);
    let x = QuoteCurrency::new(977, 1);
    let long = ft.pnl(e, x, BaseCurrency::new(1234, 3));
    let short = ft.pnl(e, x, BaseCurrency::new(-1234, 3));
    assert_eq!(long, QuoteCurrency::new(-3208, 3));
    assert_eq!(short, QuoteCurrency::new(3208, 3));
}

#[test]
fn pnl_at_same_price_is_zero() {
    for ft in [FuturesTypes::Linear, FuturesTypes::Inverse] {
        let p = QuoteCurrency::new(333, 0);
        assert_eq!(ft.pnl(p, p, QuoteCurrency::new(777, 0)), BaseCurrency::new(0, 0));
        assert_eq!(ft.pnl(p, p, BaseCurrency::new(-5, 1)), QuoteCurrency::new(0, 0));
    }
}

#[test]
fn conversion_rounds_half_to_even() {
    // 0.0005 * 1 = 0.0005 -> 0.000 (tie to even), 0.0015 -> 0.002
    let q = BaseCurrency::new(1, 3);
    assert_eq!(q.convert(QuoteCurrency::new(5, 1)), QuoteCurrency::new(0, 0));
    assert_eq!(q.convert(QuoteCurrency::new(15, 1)), QuoteCurrency::new(2, 3));
    assert_eq!(BaseCurrency::new(-1, 3).convert(QuoteCurrency::new(15, 1)), QuoteCurrency::new(-2, 3));
    // 1 Quote at 3 Quote per Base is 0.333 Base
    assert_eq!(QuoteCurrency::new(1, 0).convert(QuoteCurrency::new(3, 0)), BaseCurrency::new(333, 3));
}

#[test]
fn futures_type_names() {
    assert_eq!(FuturesTypes::Linear.to_str(), "LINEAR");
    assert_eq!(FuturesTypes::Inverse.to_str(), "INVERSE");
    assert_eq!(FuturesTypes::default(), FuturesTypes::Linear);
}

#[test]
fn futures_type_parse() {
    assert_eq!(FuturesTypes::parse("linear"), Ok(FuturesTypes::Linear));
    assert_eq!(FuturesTypes::parse("Inverse"), Ok(FuturesTypes::Inverse));
    assert_eq!(FuturesTypes::parse("INVERSE"), Ok(FuturesTypes::Inverse));
    assert_eq!(FuturesTypes::parse("spot"), Err(Error::ParseError));
    assert_eq!(FuturesTypes::from_upper("linear"), Err(Error::ParseError));
    assert_eq!(FuturesTypes::from_upper("LINEAR"), Ok(FuturesTypes::Linear));
    let parsed: Result<FuturesTypes, Error> = "linear".parse();
    assert_eq!(parsed, Ok(FuturesTypes::Linear));
}
