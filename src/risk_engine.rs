//! The isolated-margin risk engine: initial-margin admission and the
//! maintenance-margin check that triggers liquidation.

use crate::accounting::InMemoryTransactionAccounting;
use crate::currency::{
    convert_value, convert_wide, converts_by_multiplication, fits_wide, mul_rate, scaled_by,
    scaled_wide, Currency, MarginCurrency,
};
use crate::decimal::{div_round_half_even, fits, round_half_even};
use crate::futures_type::{futures_type_of, pnl_fits, pnl_value};
use crate::leverage::{ContractSpecification, Leverage};
use crate::market_state::MarketState;
use crate::position_inner::{signed_qty, PositionInner};
use vstd::prelude::*;

verus! {

/// The error that the risk engine outputs, if any.
#[derive(Debug, Clone, Copy, PartialEq, Eq, Structural)]
pub enum RiskError {
    /// The trader does not have enough balance.
    NotEnoughAvailableBalance,
    /// The position must be liquidated.
    Liquidate,
}

/// The initial margin of `notional` under `leverage`: `notional / leverage`.
pub open spec fn initial_margin_of(notional: int, leverage: int) -> int {
    round_half_even(notional, leverage)
}

/// The equity of a position whose margin account holds `margin`, valued at
/// `mark`: the margin plus the unrealized profit and loss.
pub open spec fn equity<Q: Currency>(
    position: PositionInner<Q>,
    margin: int,
    mark: int,
    direction_multiplier: i8,
) -> int {
    margin + pnl_value(
        futures_type_of(Q::converts_by_multiplication()),
        Q::converts_by_multiplication(),
        position.entry(),
        mark,
        signed_qty(direction_multiplier, position.qty()),
    )
}

/// The maintenance margin of a position valued at `mark` under the rate
/// `maintenance_rate`.
pub open spec fn maintenance_of<Q: Currency>(
    position: PositionInner<Q>,
    mark: int,
    maintenance_rate: int,
) -> int {
    scaled_by(
        convert_value(Q::converts_by_multiplication(), position.qty(), mark),
        maintenance_rate,
    )
}

/// The isolated-margin risk engine of one contract.
pub struct IsolatedMarginRiskEngine {
    contract_spec: ContractSpecification,
}

impl IsolatedMarginRiskEngine {
    /// The contract specification the engine applies.
    pub closed spec fn spec_contract(self) -> ContractSpecification {
        self.contract_spec
    }

    /// An engine for `contract_spec`.
    pub fn new(contract_spec: ContractSpecification) -> (r: Self)
        ensures
            r.spec_contract() == contract_spec,
    {
        IsolatedMarginRiskEngine { contract_spec }
    }

    /// Whether the numbers of `check_required_margin` fit a mantissa.
    pub open spec fn required_margin_fits(self, notional: int, leverage: int, fee: int) -> bool {
        &&& fits(scaled_by(notional, self.spec_contract().maintenance_margin.value()))
        &&& fits(initial_margin_of(notional, leverage))
        &&& fits(initial_margin_of(notional, leverage) + fee)
    }

    /// The initial and maintenance margin of a new position of value
    /// `notional_value`, if the wallet covers the initial margin and the
    /// projected fee.
    pub fn check_required_margin<M: MarginCurrency>(
        &self,
        accounting: &InMemoryTransactionAccounting<M>,
        notional_value: M,
        leverage: Leverage,
        projected_fee: M,
    ) -> (r: Result<(M, M), RiskError>)
        requires
            accounting.wf(),
            self.required_margin_fits(
                notional_value.value(),
                leverage.factor(),
                projected_fee.value(),
            ),
        ensures
            r is Err <==> accounting.wallet_balance() < initial_margin_of(
                notional_value.value(),
                leverage.factor(),
            ) + projected_fee.value(),
            r matches Err(e) ==> e == RiskError::NotEnoughAvailableBalance,
            r matches Ok((init, maint)) ==> init.value() == initial_margin_of(
                notional_value.value(),
                leverage.factor(),
            ) && maint.value() == scaled_by(
                notional_value.value(),
                self.spec_contract().maintenance_margin.value(),
            ),
    {
        let l = leverage.get();
        let n = notional_value.mantissa();
        let fee = projected_fee.mantissa();
        let init = div_round_half_even(n as i128, l as i128);
        if (accounting.wallet().mantissa() as i128) < init + (fee as i128) {
            return Err(RiskError::NotEnoughAvailableBalance);
        }
        let maint = mul_rate(notional_value, self.contract_spec.maintenance_margin);
        proof {
            crate::decimal::lemma_round_half_even_bounds(n as int, l as int);
        }
        Ok((M::from_mantissa(init as i64), maint))
    }

    /// Whether the numbers of `check_maintenance_margin` fit a mantissa.
    pub open spec fn maintenance_fits<Q: Currency>(
        self,
        position: PositionInner<Q>,
        margin: int,
        mark: int,
        direction_multiplier: i8,
    ) -> bool {
        let by_mul = Q::converts_by_multiplication();
        &&& pnl_fits(by_mul, position.entry(), mark, signed_qty(direction_multiplier, position.qty()))
        &&& fits(convert_value(by_mul, position.qty(), mark))
        &&& fits(maintenance_of(position, mark, self.spec_contract().maintenance_margin.value()))
        &&& fits(equity(position, margin, mark, direction_multiplier))
    }

    /// Ensures the position keeps enough margin to stay open: at the mid
    /// price, its margin plus unrealized profit and loss must reach the
    /// maintenance margin, else the position must be liquidated. A flat
    /// position is never liquidated.
    ///
    /// The test compares equity (margin plus unrealized profit and loss)
    /// with the maintenance margin of the marked notional. Comparing the
    /// marked notional itself with margin plus maintenance margin would never
    /// liquidate a leveraged long that loses most of its margin (5 contracts
    /// bought at 100 with 100 of margin, marked at 81), which is the case the
    /// liquidation rule exists for.
    pub fn check_maintenance_margin<Q: Currency>(
        &self,
        market_state: &MarketState,
        position: &PositionInner<Q>,
        direction_multiplier: i8,
        accounting: &InMemoryTransactionAccounting<Q::PairedCurrency>,
    ) -> (r: Result<(), RiskError>)
        requires
            direction_multiplier == 1 || direction_multiplier == -1,
            accounting.wf(),
            position.qty() > 0 ==> market_state.has_quote() && self.maintenance_fits(
                *position,
                accounting.margin_balance(),
                market_state.mid(),
                direction_multiplier,
            ),
        ensures
            r is Err <==> position.qty() > 0 && equity(
                *position,
                accounting.margin_balance(),
                market_state.mid(),
                direction_multiplier,
            ) < maintenance_of(
                *position,
                market_state.mid(),
                self.spec_contract().maintenance_margin.value(),
            ),
            r matches Err(e) ==> e == RiskError::Liquidate,
    {
        let quantity = position.quantity();
        let q = quantity.mantissa();
        if q == 0 {
            return Ok(());
        }
        let mark = market_state.mid_price();
        let signed = if direction_multiplier == 1 {
            quantity
        } else {
            Q::from_mantissa(-q)
        };
        let ft = Q::futures_type();
        let upnl = ft.pnl(position.entry_price(), mark, signed).mantissa();
        let equity = accounting.position_margin().mantissa() + upnl;
        let maint = mul_rate(quantity.convert(mark), self.contract_spec.maintenance_margin);
        if equity < maint.mantissa() {
            Err(RiskError::Liquidate)
        } else {
            Ok(())
        }
    }

    /// Computes `maintenance_fits`: whether `check_maintenance_margin` can
    /// value the position without an amount leaving the range of a mantissa.
    pub fn check_maintenance_fits<Q: Currency>(
        &self,
        market_state: &MarketState,
        position: &PositionInner<Q>,
        direction_multiplier: i8,
        accounting: &InMemoryTransactionAccounting<Q::PairedCurrency>,
    ) -> (r: bool)
        requires
            direction_multiplier == 1 || direction_multiplier == -1,
            market_state.has_quote(),
            position.qty() > 0,
            accounting.wf(),
        ensures
            r == self.maintenance_fits(
                *position,
                accounting.margin_balance(),
                market_state.mid(),
                direction_multiplier,
            ),
    {
        let by_mul = converts_by_multiplication::<Q>();
        let q = position.quantity().mantissa();
        let entry = position.entry_price().mantissa();
        let mark = market_state.mid_price().mantissa();
        let sq = if direction_multiplier == 1 {
            q
        } else {
            -q
        };
        let at_entry = convert_wide(by_mul, sq, entry);
        let at_mark = convert_wide(by_mul, sq, mark);
        if !fits_wide(at_entry) || !fits_wide(at_mark) || !fits_wide(at_mark - at_entry) {
            return false;
        }
        let pnl = if by_mul {
            at_mark - at_entry
        } else {
            at_entry - at_mark
        };
        let value = convert_wide(by_mul, q, mark);
        if !fits_wide(value) {
            return false;
        }
        let maint = scaled_wide(value as i64, self.contract_spec.maintenance_margin.mantissa());
        let equity = (accounting.position_margin().mantissa() as i128) + pnl;
        fits_wide(maint) && fits_wide(equity)
    }
}

} // verus!
