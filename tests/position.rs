use lfest::accounting::{
    InMemoryTransactionAccounting, EXCHANGE_FEE_ACCOUNT, TREASURY_ACCOUNT,
    USER_POSITION_MARGIN_ACCOUNT, USER_WALLET_ACCOUNT,
};
use lfest::currency::{mul_rate, BaseCurrency, Currency, Decimal, MarginCurrency, QuoteCurrency};
use lfest::leverage::Leverage;
use lfest::position_inner::{split_fill, PositionInner};

fn fee_maker() -> Decimal {
    Decimal::try_from_scaled(2, 4).unwrap()
}

fn fee_taker() -> Decimal {
    Decimal::try_from_scaled(6, 4).unwrap()
}

fn quote(v: i64, scale: u8) -> QuoteCurrency {
    QuoteCurrency::new(v, scale)
}

fn balance(ta: &InMemoryTransactionAccounting<QuoteCurrency>, a: usize) -> QuoteCurrency {
    ta.margin_balance_of(a).unwrap()
}

fn total(ta: &InMemoryTransactionAccounting<QuoteCurrency>) -> i64 {
    [USER_WALLET_ACCOUNT, USER_POSITION_MARGIN_ACCOUNT, EXCHANGE_FEE_ACCOUNT, TREASURY_ACCOUNT]
        .iter()
        .map(|a| balance(ta, *a).mantissa())
        .sum()
}

#[test]
fn position_inner_new() {
    for leverage in [1u8, 2, 5] {
        let mut ta = InMemoryTransactionAccounting::new(quote(1000, 0));
        let init_margin_req = Leverage::new(leverage).unwrap().init_margin_req();
        let qty = BaseCurrency::new(5, 1);
        let entry_price = quote(100, 0);
        let fees = mul_rate(qty.convert(entry_price), fee_maker());
        let pos = PositionInner::new(qty, entry_price, &mut ta, init_margin_req, fees);
        assert_eq!(pos.quantity(), qty);
        assert_eq!(pos.entry_price(), quote(100, 0));
        assert_eq!(pos.outstanding_fees(), quote(1, 2));
        let margin = mul_rate(quote(50, 0), init_margin_req);
        assert_eq!(balance(&ta, USER_POSITION_MARGIN_ACCOUNT), margin);
        assert_eq!(
            balance(&ta, USER_WALLET_ACCOUNT).mantissa(),
            quote(1000, 0).mantissa() - margin.mantissa()
        );
        assert_eq!(total(&ta), 1_000_000);
    }
}

#[test]
fn position_inner_increase_contracts() {
    for leverage in [1u8, 2, 5] {
        let mut ta = InMemoryTransactionAccounting::new(quote(1000, 0));
        let init_margin_req = Leverage::new(leverage).unwrap().init_margin_req();
        let qty = BaseCurrency::new(5, 1);
        let fee_0 = mul_rate(qty.convert(quote(100, 0)), fee_maker());
        let mut pos = PositionInner::new(qty, quote(100, 0), &mut ta, init_margin_req, fee_0);
        let fee_1 = mul_rate(qty.convert(quote(150, 0)), fee_maker());
        pos.increase_contracts(qty, quote(150, 0), &mut ta, init_margin_req, fee_1);
        assert_eq!(pos.quantity(), BaseCurrency::new(1, 0));
        assert_eq!(pos.entry_price(), quote(125, 0));
        assert_eq!(pos.outstanding_fees().mantissa(), fee_0.mantissa() + fee_1.mantissa());
        let margin = mul_rate(quote(125, 0), init_margin_req);
        assert_eq!(balance(&ta, USER_POSITION_MARGIN_ACCOUNT), margin);
        assert_eq!(
            balance(&ta, USER_WALLET_ACCOUNT).mantissa(),
            1_000_000 - margin.mantissa()
        );
        assert_eq!(total(&ta), 1_000_000);
    }
}

#[test]
fn position_inner_decrease_contracts_basic() {
    for leverage in [1u8, 2, 5] {
        let mut ta = InMemoryTransactionAccounting::new(quote(1000, 0));
        let init_margin_req = Leverage::new(leverage).unwrap().init_margin_req();
        let qty = BaseCurrency::new(5, 0);
        let entry_price = quote(100, 0);
        let fees = mul_rate(qty.convert(entry_price), fee_maker());
        let half_fee = QuoteCurrency::from_mantissa(fees.mantissa() / 2);
        let half = BaseCurrency::new(25, 1);
        let mut pos = PositionInner::new(qty, entry_price, &mut ta, init_margin_req, fees);
        pos.decrease_contracts(half, entry_price, &mut ta, init_margin_req, 1, half_fee);
        assert_eq!(pos.quantity(), half);
        assert_eq!(pos.entry_price(), quote(100, 0));
        assert_eq!(pos.outstanding_fees(), quote(0, 0));
        let margin = mul_rate(quote(250, 0), init_margin_req);
        assert_eq!(balance(&ta, USER_POSITION_MARGIN_ACCOUNT), margin);
        assert_eq!(
            balance(&ta, USER_WALLET_ACCOUNT).mantissa(),
            1_000_000 - margin.mantissa() - fees.mantissa() * 15 / 10
        );

        pos.decrease_contracts(half, entry_price, &mut ta, init_margin_req, 1, half_fee);
        assert_eq!(pos.quantity(), BaseCurrency::new(0, 0));
        assert_eq!(pos.entry_price(), quote(100, 0));
        assert_eq!(pos.outstanding_fees(), quote(0, 0));
        assert_eq!(balance(&ta, USER_POSITION_MARGIN_ACCOUNT), quote(0, 0));
        assert_eq!(
            balance(&ta, USER_WALLET_ACCOUNT).mantissa(),
            1_000_000 - fees.mantissa() * 2
        );
        assert_eq!(total(&ta), 1_000_000);
    }
}

#[test]
fn position_inner_decrease_contracts_win_and_loss() {
    for leverage in [1u8, 2, 5] {
        for side_mult in [1i8, -1] {
            for (exit, profit) in [(110i64, 25i64), (90, -25)] {
                let mut ta = InMemoryTransactionAccounting::new(quote(1000, 0));
                let init_margin_req = Leverage::new(leverage).unwrap().init_margin_req();
                let qty = BaseCurrency::new(5, 0);
                let entry_price = quote(100, 0);
                let fees = mul_rate(qty.convert(entry_price), fee_maker());
                let half_fee = QuoteCurrency::from_mantissa(fees.mantissa() / 2);
                let mut pos = PositionInner::new(qty, entry_price, &mut ta, init_margin_req, fees);
                pos.decrease_contracts(
                    BaseCurrency::new(25, 1),
                    quote(exit, 0),
                    &mut ta,
                    init_margin_req,
                    side_mult,
                    half_fee,
                );
                assert_eq!(pos.quantity(), BaseCurrency::new(25, 1));
                assert_eq!(pos.entry_price(), quote(100, 0));
                assert_eq!(pos.total_cost(), quote(250, 0));
                let margin = mul_rate(quote(250, 0), init_margin_req);
                assert_eq!(balance(&ta, USER_POSITION_MARGIN_ACCOUNT), margin);
                let profit = profit * side_mult as i64 * 1000;
                assert_eq!(
                    balance(&ta, USER_WALLET_ACCOUNT).mantissa(),
                    1_000_000 + profit - margin.mantissa() - fees.mantissa() * 15 / 10
                );
                assert_eq!(total(&ta), 1_000_000);
            }
        }
    }
}

#[test]
fn position_inner_entry_price_linear() {
    for qty in [1i64, 2, 5, 9] {
        let mut ta = InMemoryTransactionAccounting::new(quote(1000, 0));
        let one = Decimal::try_from_scaled(1, 0).unwrap();
        let pos = PositionInner::new(BaseCurrency::new(qty, 0), quote(100, 0), &mut ta, one, quote(0, 0));
        assert_eq!(pos.entry_price(), quote(100, 0));
    }
}

#[test]
fn position_inner_entry_price_inverse() {
    for qty in [10i64, 20, 50, 90] {
        let mut ta = InMemoryTransactionAccounting::new(BaseCurrency::new(10, 0));
        let one = Decimal::try_from_scaled(1, 0).unwrap();
        let pos = PositionInner::new(quote(qty, 0), quote(100, 0), &mut ta, one, BaseCurrency::new(0, 0));
        assert_eq!(pos.entry_price(), quote(100, 0));
        assert_eq!(pos.total_cost(), BaseCurrency::new(qty, 2));
        assert_eq!(ta.margin_balance_of(USER_POSITION_MARGIN_ACCOUNT).unwrap(), BaseCurrency::new(qty, 2));
    }
}

#[test]
fn position_inner_decrease_contracts_inverse() {
    let mut ta = InMemoryTransactionAccounting::new(BaseCurrency::new(10, 0));
    let one = Decimal::try_from_scaled(1, 0).unwrap();
    let qty = QuoteCurrency::new(500, 0);
    let mut pos = PositionInner::new(qty, quote(100, 0), &mut ta, one, BaseCurrency::new(0, 0));
    assert_eq!(ta.wallet(), BaseCurrency::new(5, 0));
    // half the contracts exit at 200: 250/100 - 250/200 = 1.25 BASE of profit
    pos.decrease_contracts(QuoteCurrency::new(250, 0), quote(200, 0), &mut ta, one, 1, BaseCurrency::new(0, 0));
    assert_eq!(pos.quantity(), QuoteCurrency::new(250, 0));
    assert_eq!(ta.position_margin(), BaseCurrency::new(25, 1));
    assert_eq!(ta.wallet(), BaseCurrency::new(875, 2));
    assert_eq!(balance_base_total(&ta), 10_000);
}

fn balance_base_total(ta: &InMemoryTransactionAccounting<BaseCurrency>) -> i64 {
    [USER_WALLET_ACCOUNT, USER_POSITION_MARGIN_ACCOUNT, EXCHANGE_FEE_ACCOUNT, TREASURY_ACCOUNT]
        .iter()
        .map(|a| ta.margin_balance_of(*a).unwrap().mantissa())
        .sum()
}

#[test]
fn unrealized_pnl_of_long() {
    let mut ta = InMemoryTransactionAccounting::new(quote(1000, 0));
    let one = Decimal::try_from_scaled(1, 0).unwrap();
    let pos = PositionInner::new(BaseCurrency::new(5, 1), quote(100, 0), &mut ta, one, quote(0, 0));
    assert_eq!(pos.unrealized_pnl(quote(110, 0)), quote(5, 0));
    assert_eq!(pos.unrealized_pnl(quote(90, 0)), quote(-5, 0));
    let flat = PositionInner::<BaseCurrency>::flat();
    assert_eq!(flat.unrealized_pnl(quote(90, 0)), quote(0, 0));
    assert_eq!(flat.total_cost(), quote(0, 0));
}

#[test]
fn from_parts_keeps_parts() {
    let pos = PositionInner::from_parts(BaseCurrency::new(5, 1), quote(100, 0), quote(1, 1));
    assert_eq!(pos.quantity(), BaseCurrency::new(5, 1));
    assert_eq!(pos.entry_price(), quote(100, 0));
    assert_eq!(pos.outstanding_fees(), quote(1, 1));
    assert_eq!(pos.total_cost(), quote(50, 0));
}

#[test]
fn increase_by_zero_keeps_entry_price() {
    let mut ta = InMemoryTransactionAccounting::new(quote(1000, 0));
    let one = Decimal::try_from_scaled(1, 0).unwrap();
    let mut pos = PositionInner::new(BaseCurrency::new(3, 0), quote(1017, 1), &mut ta, one, quote(0, 0));
    pos.increase_contracts(BaseCurrency::new(0, 0), quote(150, 0), &mut ta, one, quote(0, 0));
    assert_eq!(pos.entry_price(), quote(1017, 1));
    assert_eq!(pos.quantity(), BaseCurrency::new(3, 0));
}

#[test]
fn weighted_entry_rounds_half_to_even() {
    let mut ta = InMemoryTransactionAccounting::new(quote(1000, 0));
    let one = Decimal::try_from_scaled(1, 0).unwrap();
    // (100 * 1 + 101 * 2) / 3 = 100.6666.. -> 100.667
    let mut pos = PositionInner::new(BaseCurrency::new(1, 0), quote(100, 0), &mut ta, one, quote(0, 0));
    pos.increase_contracts(BaseCurrency::new(2, 0), quote(101, 0), &mut ta, one, quote(0, 0));
    assert_eq!(pos.entry_price(), quote(100667, 3));
    // closing it all releases all the locked margin, even the rounding residue
    pos.decrease_contracts(BaseCurrency::new(3, 0), quote(100667, 3), &mut ta, one, 1, quote(0, 0));
    assert_eq!(ta.position_margin(), quote(0, 0));
    assert_eq!(total(&ta), 1_000_000);
}

#[test]
fn taker_fee_reduces_wallet() {
    let mut ta = InMemoryTransactionAccounting::new(quote(1000, 0));
    let one = Decimal::try_from_scaled(1, 0).unwrap();
    let mut pos = PositionInner::new(BaseCurrency::new(1, 0), quote(100, 0), &mut ta, one, quote(0, 0));
    let fee = mul_rate(quote(100, 0), fee_taker());
    assert_eq!(fee, quote(6, 2));
    pos.decrease_contracts(BaseCurrency::new(1, 0), quote(100, 0), &mut ta, one, 1, fee);
    assert_eq!(ta.wallet(), quote(99994, 2));
    assert_eq!(balance(&ta, EXCHANGE_FEE_ACCOUNT), quote(6, 2));
}

#[test]
fn split_fill_into_legs() {
    // same side or flat: all increase
    assert_eq!(split_fill(0, 5), (0, 5));
    assert_eq!(split_fill(3, 2), (0, 2));
    assert_eq!(split_fill(-3, -2), (0, -2));
    // against the position, within its size: all decrease
    assert_eq!(split_fill(3, -2), (2, 0));
    assert_eq!(split_fill(-3, 3), (3, 0));
    // a flip: close 3, open 2 on the other side
    assert_eq!(split_fill(3, -5), (3, -2));
    assert_eq!(split_fill(-3, 5), (3, 2));
}

#[test]
fn liquidate_closes_whole_position() {
    let mut ta = InMemoryTransactionAccounting::new(quote(1000, 0));
    let imr = Leverage::new(5).unwrap().init_margin_req();
    let mut pos = PositionInner::new(BaseCurrency::new(5, 0), quote(100, 0), &mut ta, imr, quote(0, 0));
    pos.liquidate(quote(81, 0), &mut ta, imr, 1);
    assert_eq!(pos.quantity(), BaseCurrency::new(0, 0));
    assert_eq!(ta.position_margin(), quote(0, 0));
    assert_eq!(ta.wallet(), quote(905, 0));
    assert_eq!(balance(&ta, TREASURY_ACCOUNT), quote(95, 0));
    assert_eq!(total(&ta), 1_000_000);
}

#[test]
fn short_position_profits_when_price_falls() {
    let mut ta = InMemoryTransactionAccounting::new(quote(1000, 0));
    let imr = Leverage::new(2).unwrap().init_margin_req();
    let mut pos = PositionInner::new(BaseCurrency::new(2, 0), quote(100, 0), &mut ta, imr, quote(0, 0));
    assert_eq!(ta.position_margin(), quote(100, 0));
    pos.decrease_contracts(BaseCurrency::new(2, 0), quote(90, 0), &mut ta, imr, -1, quote(0, 0));
    assert_eq!(ta.wallet(), quote(1020, 0));
    assert_eq!(total(&ta), 1_000_000);
}
