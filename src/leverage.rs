//! Leverage and the contract specification it is applied with.

use crate::currency::Decimal;
use crate::decimal::{div_round_half_even, round_half_even, RATE_SCALE};
use crate::errors::Error;
use crate::position_inner::valid_margin_req;
use vstd::prelude::*;

verus! {

/// The largest leverage the exchange grants.
pub const MAX_LEVERAGE: u8 = 125;

/// The leverage of a position, in `1..=MAX_LEVERAGE`.
#[derive(Debug, Clone, Copy, PartialEq, Eq, Structural)]
pub struct Leverage {
    value: u8,
}

impl Leverage {
    #[verifier::type_invariant]
    spec fn inv(self) -> bool {
        1 <= self.value <= MAX_LEVERAGE
    }

    /// The leverage as an integer.
    pub closed spec fn factor(self) -> int {
        self.value as int
    }

    /// The initial margin requirement `1 / leverage` at the rate scale.
    pub open spec fn margin_req(self) -> int {
        round_half_even(RATE_SCALE as int, self.factor())
    }

    /// The leverage `value`, if it lies in `1..=MAX_LEVERAGE`.
    pub fn new(value: u8) -> (r: Result<Leverage, Error>)
        ensures
            r is Ok <==> 1 <= value <= MAX_LEVERAGE,
            r matches Ok(l) ==> l.factor() == value,
            r matches Err(e) ==> e == Error::InvalidLeverage,
    {
        if value < 1 || value > MAX_LEVERAGE {
            Err(Error::InvalidLeverage)
        } else {
            Ok(Leverage { value })
        }
    }

    /// The leverage as an integer.
    pub fn get(&self) -> (r: u8)
        ensures
            r == self.factor(),
            1 <= r <= MAX_LEVERAGE,
    {
        proof {
            use_type_invariant(self);
        }
        self.value
    }

    /// The initial margin requirement: `1 / leverage`.
    pub fn init_margin_req(&self) -> (r: Decimal)
        ensures
            r.value() == self.margin_req(),
            valid_margin_req(r),
    {
        let l = self.get();
        proof {
            crate::decimal::lemma_round_half_even_bounds(RATE_SCALE as int, l as int);
            crate::decimal::lemma_round_half_even_pos(RATE_SCALE as int, l as int);
            vstd::arithmetic::div_mod::lemma_div_is_ordered_by_denominator(
                RATE_SCALE as int,
                1,
                l as int,
            );
            vstd::arithmetic::div_mod::lemma_fundamental_div_mod(RATE_SCALE as int, l as int);
            if l > 1 {
                vstd::arithmetic::div_mod::lemma_div_is_ordered_by_denominator(
                    RATE_SCALE as int,
                    2,
                    l as int,
                );
            }
        }
        let m = div_round_half_even(RATE_SCALE as i128, l as i128);
        Decimal::from_mantissa(m as i64)
    }
}

/// The margin rates of the traded contract.
#[derive(Debug, Clone, Copy, PartialEq, Eq, Structural)]
pub struct ContractSpecification {
    /// The initial margin rate, in `(0, 1]`.
    pub initial_margin: Decimal,
    /// The maintenance margin rate, in `(0, 1]` and below the initial rate.
    pub maintenance_margin: Decimal,
}

/// Whether two margin rates make a valid contract specification.
pub open spec fn valid_margins(initial: int, maintenance: int) -> bool {
    &&& 0 < initial <= RATE_SCALE
    &&& 0 < maintenance <= RATE_SCALE
    &&& maintenance < initial
}

impl ContractSpecification {
    /// A contract specification with the given margin rates, if they are
    /// valid.
    pub fn new(initial_margin: Decimal, maintenance_margin: Decimal) -> (r: Result<
        ContractSpecification,
        Error,
    >)
        ensures
            r is Ok <==> valid_margins(initial_margin.value(), maintenance_margin.value()),
            r matches Ok(c) ==> c.initial_margin == initial_margin && c.maintenance_margin
                == maintenance_margin,
            r matches Err(e) ==> e == Error::InvalidMargin,
    {
        let i = initial_margin.mantissa();
        let m = maintenance_margin.mantissa();
        if i <= 0 || i > RATE_SCALE || m <= 0 || m > RATE_SCALE || m >= i {
            Err(Error::InvalidMargin)
        } else {
            Ok(ContractSpecification { initial_margin, maintenance_margin })
        }
    }
}

} // verus!
