//! The error taxonomy of the library.

use vstd::prelude::*;

verus! {

/// Errors returned by the library's fallible operations.
#[derive(Debug, Clone, Copy, PartialEq, Eq, Structural)]
pub enum Error {
    /// A string does not name a known variant.
    ParseError,
    /// A debit would drive a user account below zero.
    InsufficientBalance,
    /// The account id is not one of the ledger's accounts.
    UnknownAccount,
    /// A price is not strictly positive.
    InvalidPrice,
    /// A quantity is not strictly positive.
    InvalidQuantity,
    /// The leverage lies outside `1..=125`.
    InvalidLeverage,
    /// A margin rate lies outside `(0, 1]`, or maintenance is not below initial.
    InvalidMargin,
    /// A quote update with the bid above the ask.
    CrossedBook,
    /// The own side of the book already holds the most resting orders allowed.
    MaxActiveOrders,
    /// No resting order has the given id.
    UnknownOrder,
    /// An amount would leave the range of a mantissa.
    Overflow,
    /// The wallet does not cover the margin and fees an order needs.
    NotEnoughAvailableBalance,
    /// An update whose timestamp lies before the last recorded one.
    OutOfOrderTimestamp,
}

} // verus!
