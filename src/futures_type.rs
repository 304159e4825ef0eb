//! The two kinds of futures contracts and their profit-and-loss rule.

use crate::currency::{convert_value, lemma_convert_value_neg, Currency, MarginCurrency, QuoteCurrency};
use crate::decimal::fits;
use crate::errors::Error;
use vstd::prelude::*;

verus! {

/// Enumeration of different futures types.
#[derive(Debug, Clone, Copy, PartialEq, Eq, Structural)]
pub enum FuturesTypes {
    /// Linear futures: quantity in BASE, profit and loss in QUOTE,
    /// `qty * (exit_price - entry_price)`.
    Linear,
    /// Inverse futures: quantity in QUOTE, profit and loss in BASE,
    /// `qty * (1 / entry_price - 1 / exit_price)`.
    Inverse,
}

/// Profit and loss, in the paired currency, of `qty` entered at `entry` and
/// left at `exit`; a negative `qty` is a short. Each leg is converted on its
/// own so that the fixed-point result is exact.
pub open spec fn pnl_value(ft: FuturesTypes, by_mul: bool, entry: int, exit: int, qty: int) -> int {
    match ft {
        FuturesTypes::Linear => convert_value(by_mul, qty, exit) - convert_value(by_mul, qty, entry),
        FuturesTypes::Inverse => convert_value(by_mul, qty, entry) - convert_value(
            by_mul,
            qty,
            exit,
        ),
    }
}

/// The futures type whose quantities convert by multiplication (linear) or
/// by division (inverse).
pub open spec fn futures_type_of(by_mul: bool) -> FuturesTypes {
    if by_mul {
        FuturesTypes::Linear
    } else {
        FuturesTypes::Inverse
    }
}

/// Every intermediate value of `pnl_value` fits a mantissa.
pub open spec fn pnl_fits(by_mul: bool, entry: int, exit: int, qty: int) -> bool {
    &&& fits(convert_value(by_mul, qty, entry))
    &&& fits(convert_value(by_mul, qty, exit))
    &&& fits(convert_value(by_mul, qty, exit) - convert_value(by_mul, qty, entry))
}

/// The upper-case name of a futures type.
pub open spec fn futures_type_name(ft: FuturesTypes) -> Seq<char> {
    match ft {
        FuturesTypes::Linear => "LINEAR"@,
        FuturesTypes::Inverse => "INVERSE"@,
    }
}

/// What parsing an already upper-cased name yields.
pub open spec fn parse_upper(u: Seq<char>) -> Result<FuturesTypes, Error> {
    if u == "LINEAR"@ {
        Ok(FuturesTypes::Linear)
    } else if u == "INVERSE"@ {
        Ok(FuturesTypes::Inverse)
    } else {
        Err(Error::ParseError)
    }
}

/// The upper-case mapping of a string, as `str::to_uppercase` gives it.
pub uninterp spec fn uppercase_of(s: Seq<char>) -> Seq<char>;

/// Relies on `str::to_uppercase`: its result depends on the characters alone.
#[verifier::external_body]
fn to_uppercase(s: &str) -> (r: String)
    ensures
        r@ == uppercase_of(s@),
{
    s.to_uppercase()
}

impl Default for FuturesTypes {
    fn default() -> (r: Self)
        ensures
            r == FuturesTypes::Linear,
    {
        FuturesTypes::Linear
    }
}

impl FuturesTypes {
    /// Return the profit and loss for a given entry and exit price with a
    /// given `contract_qty`; a negative `contract_qty` gives the profit and
    /// loss of a short position.
    pub fn pnl<S: Currency>(
        &self,
        entry_price: QuoteCurrency,
        exit_price: QuoteCurrency,
        contract_qty: S,
    ) -> (r: S::PairedCurrency)
        requires
            entry_price.value() > 0,
            exit_price.value() > 0,
            pnl_fits(
                S::converts_by_multiplication(),
                entry_price.value(),
                exit_price.value(),
                contract_qty.value(),
            ),
        ensures
            r.value() == pnl_value(
                *self,
                S::converts_by_multiplication(),
                entry_price.value(),
                exit_price.value(),
                contract_qty.value(),
            ),
    {
        let at_entry = contract_qty.convert(entry_price).mantissa();
        let at_exit = contract_qty.convert(exit_price).mantissa();
        match self {
            FuturesTypes::Linear => S::PairedCurrency::from_mantissa(at_exit - at_entry),
            FuturesTypes::Inverse => S::PairedCurrency::from_mantissa(at_entry - at_exit),
        }
    }

    /// String representation of the futures type.
    pub fn to_str(&self) -> (r: &'static str)
        ensures
            r@ == futures_type_name(*self),
    {
        proof {
            reveal_strlit("LINEAR");
            reveal_strlit("INVERSE");
        }
        match self {
            FuturesTypes::Linear => "LINEAR",
            FuturesTypes::Inverse => "INVERSE",
        }
    }

    /// Parses an upper-case name: `LINEAR` or `INVERSE`.
    pub fn from_upper(u: &str) -> (r: Result<FuturesTypes, Error>)
        ensures
            r == parse_upper(u@),
    {
        proof {
            reveal_strlit("LINEAR");
            reveal_strlit("INVERSE");
        }
        let owned = u.to_owned();
        let linear = "LINEAR".to_owned();
        let inverse = "INVERSE".to_owned();
        if owned == linear {
            Ok(FuturesTypes::Linear)
        } else if owned == inverse {
            Ok(FuturesTypes::Inverse)
        } else {
            Err(Error::ParseError)
        }
    }

    /// Parses a name in any letter case.
    pub fn parse(s: &str) -> (r: Result<FuturesTypes, Error>)
        ensures
            r == parse_upper(uppercase_of(s@)),
    {
        let u = to_uppercase(s);
        FuturesTypes::from_upper(u.as_str())
    }
}

impl std::str::FromStr for FuturesTypes {
    type Err = Error;

    fn from_str(s: &str) -> Result<FuturesTypes, Error> {
        FuturesTypes::parse(s)
    }
}

/// Linear profit and loss is antisymmetric in the side: the long and the
/// short of one quantity sum to zero.
pub proof fn lemma_pnl_linear_symmetry(by_mul: bool, entry: int, exit: int, qty: int)
    requires
        entry > 0,
        exit > 0,
    ensures
        pnl_value(FuturesTypes::Linear, by_mul, entry, exit, qty) + pnl_value(
            FuturesTypes::Linear,
            by_mul,
            entry,
            exit,
            -qty,
        ) == 0,
{
    lemma_convert_value_neg(by_mul, qty, entry);
    lemma_convert_value_neg(by_mul, qty, exit);
}

/// Entering and leaving at one price makes no profit or loss, for either
/// futures type and any quantity.
pub proof fn lemma_pnl_zero(ft: FuturesTypes, by_mul: bool, price: int, qty: int)
    ensures
        pnl_value(ft, by_mul, price, price, qty) == 0,
{
}

} // verus!
