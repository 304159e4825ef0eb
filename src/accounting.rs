//! A double-entry ledger over the four internal accounts.

use crate::currency::MarginCurrency;
use crate::decimal::fits;
use crate::errors::Error;
use vstd::prelude::*;

verus! {

/// Identifies one of the ledger's accounts.
pub type AccountId = usize;

/// The user's free collateral.
pub const USER_WALLET_ACCOUNT: AccountId = 0;

/// Collateral locked by the user's open position.
pub const USER_POSITION_MARGIN_ACCOUNT: AccountId = 1;

/// Fees collected by the exchange (and rebates it pays out).
pub const EXCHANGE_FEE_ACCOUNT: AccountId = 2;

/// The counterparty of realized profit and loss.
pub const TREASURY_ACCOUNT: AccountId = 3;

/// Whether `a` names one of the four accounts.
pub open spec fn is_account(a: int) -> bool {
    0 <= a < 4
}

/// Whether `a` is a user account, whose balance may never go below zero.
pub open spec fn is_user_account(a: int) -> bool {
    a == USER_WALLET_ACCOUNT || a == USER_POSITION_MARGIN_ACCOUNT
}

/// A movement of `amount` from `credit_account` to `debit_account`.
pub struct Transaction<M: MarginCurrency> {
    /// The account that receives the amount.
    pub debit_account: AccountId,
    /// The account that gives the amount.
    pub credit_account: AccountId,
    /// The amount moved; never negative.
    pub amount: M,
}

impl<M: MarginCurrency> Transaction<M> {
    /// A transfer of `amount` from `credit_account` into `debit_account`.
    pub fn new(debit_account: AccountId, credit_account: AccountId, amount: M) -> (r: Self)
        ensures
            r.debit_account == debit_account,
            r.credit_account == credit_account,
            r.amount == amount,
    {
        Transaction { debit_account, credit_account, amount }
    }
}

/// The balance of account `a` after moving `amount` from `credit` to `debit`.
pub open spec fn moved(before: int, a: int, debit: int, credit: int, amount: int) -> int {
    before + (if a == debit {
        amount
    } else {
        0
    }) - (if a == credit {
        amount
    } else {
        0
    })
}

/// An in-memory ledger of margin-currency balances.
pub struct InMemoryTransactionAccounting<M: MarginCurrency> {
    wallet: M,
    position_margin: M,
    exchange_fee: M,
    treasury: M,
}

impl<M: MarginCurrency> InMemoryTransactionAccounting<M> {
    /// The balance of account `a`; zero for an id that names no account.
    pub closed spec fn balance(self, a: int) -> int {
        if a == USER_WALLET_ACCOUNT {
            self.wallet.value()
        } else if a == USER_POSITION_MARGIN_ACCOUNT {
            self.position_margin.value()
        } else if a == EXCHANGE_FEE_ACCOUNT {
            self.exchange_fee.value()
        } else if a == TREASURY_ACCOUNT {
            self.treasury.value()
        } else {
            0
        }
    }

    /// The sum of all balances; the ledger never changes it.
    pub open spec fn total(self) -> int {
        self.balance(0) + self.balance(1) + self.balance(2) + self.balance(3)
    }

    /// The user accounts are never negative, and every balance is a mantissa.
    pub open spec fn wf(self) -> bool {
        &&& fits(self.balance(0))
        &&& fits(self.balance(1))
        &&& fits(self.balance(2))
        &&& fits(self.balance(3))
        &&& self.balance(USER_WALLET_ACCOUNT as int) >= 0
        &&& self.balance(USER_POSITION_MARGIN_ACCOUNT as int) >= 0
    }

    /// The wallet balance.
    pub open spec fn wallet_balance(self) -> int {
        self.balance(USER_WALLET_ACCOUNT as int)
    }

    /// The balance locked as position margin.
    pub open spec fn margin_balance(self) -> int {
        self.balance(USER_POSITION_MARGIN_ACCOUNT as int)
    }

    /// Whether a valid transfer can be posted without a balance overflowing.
    pub open spec fn transfer_fits(self, tx: Transaction<M>) -> bool {
        &&& tx.amount.value() >= 0
        &&& fits(self.balance(tx.debit_account as int) + tx.amount.value())
        &&& fits(self.balance(tx.credit_account as int) - tx.amount.value())
    }

    /// The outcome that `create_margin_transfer` owes for `tx`.
    pub open spec fn transfer_outcome(self, tx: Transaction<M>) -> Result<(), Error> {
        if !is_account(tx.debit_account as int) || !is_account(tx.credit_account as int) {
            Err(Error::UnknownAccount)
        } else if is_user_account(tx.credit_account as int) && tx.debit_account
            != tx.credit_account && self.balance(tx.credit_account as int) < tx.amount.value() {
            Err(Error::InsufficientBalance)
        } else {
            Ok(())
        }
    }

    /// A ledger whose wallet holds `starting_balance` and whose other accounts
    /// are empty.
    pub fn new(starting_balance: M) -> (r: Self)
        requires
            starting_balance.value() >= 0,
        ensures
            r.balance(USER_WALLET_ACCOUNT as int) == starting_balance.value(),
            r.balance(USER_POSITION_MARGIN_ACCOUNT as int) == 0,
            r.balance(EXCHANGE_FEE_ACCOUNT as int) == 0,
            r.balance(TREASURY_ACCOUNT as int) == 0,
            r.total() == starting_balance.value(),
            r.wf(),
    {
        let _ = starting_balance.mantissa();
        InMemoryTransactionAccounting {
            wallet: starting_balance,
            position_margin: M::from_mantissa(0),
            exchange_fee: M::from_mantissa(0),
            treasury: M::from_mantissa(0),
        }
    }

    /// The balance of a known account.
    pub fn get(&self, a: AccountId) -> (r: M)
        requires
            is_account(a as int),
        ensures
            r.value() == self.balance(a as int),
    {
        if a == USER_WALLET_ACCOUNT {
            self.wallet
        } else if a == USER_POSITION_MARGIN_ACCOUNT {
            self.position_margin
        } else if a == EXCHANGE_FEE_ACCOUNT {
            self.exchange_fee
        } else {
            self.treasury
        }
    }

    fn set(&mut self, a: AccountId, v: M)
        requires
            is_account(a as int),
        ensures
            final(self).balance(a as int) == v.value(),
            forall|b: int| b != a ==> final(self).balance(b) == old(self).balance(b),
    {
        if a == USER_WALLET_ACCOUNT {
            self.wallet = v;
        } else if a == USER_POSITION_MARGIN_ACCOUNT {
            self.position_margin = v;
        } else if a == EXCHANGE_FEE_ACCOUNT {
            self.exchange_fee = v;
        } else {
            self.treasury = v;
        }
    }

    /// The wallet balance.
    pub fn wallet(&self) -> (r: M)
        ensures
            r.value() == self.wallet_balance(),
    {
        self.wallet
    }

    /// The balance locked as position margin.
    pub fn position_margin(&self) -> (r: M)
        ensures
            r.value() == self.margin_balance(),
    {
        self.position_margin
    }

    /// The balance of `account`.
    pub fn margin_balance_of(&self, account: AccountId) -> (r: Result<M, Error>)
        ensures
            is_account(account as int) <==> r is Ok,
            r matches Ok(v) ==> v.value() == self.balance(account as int),
            r matches Err(e) ==> e == Error::UnknownAccount,
    {
        if account < 4 {
            Ok(self.get(account))
        } else {
            Err(Error::UnknownAccount)
        }
    }

    /// Posts both legs of `tx`, or neither.
    pub fn create_margin_transfer(&mut self, tx: Transaction<M>) -> (r: Result<(), Error>)
        requires
            old(self).transfer_fits(tx),
        ensures
            r == old(self).transfer_outcome(tx),
            r is Ok ==> forall|a: int|
                #![trigger final(self).balance(a)]
                final(self).balance(a) == moved(
                    old(self).balance(a),
                    a,
                    tx.debit_account as int,
                    tx.credit_account as int,
                    tx.amount.value(),
                ),
            r is Err ==> *final(self) == *old(self),
            final(self).total() == old(self).total(),
            old(self).wf() ==> final(self).wf(),
    {
        if tx.debit_account >= 4 || tx.credit_account >= 4 {
            return Err(Error::UnknownAccount);
        }
        let amount = tx.amount.mantissa();
        let from = self.get(tx.credit_account).mantissa();
        if (tx.credit_account == USER_WALLET_ACCOUNT || tx.credit_account
            == USER_POSITION_MARGIN_ACCOUNT) && tx.debit_account != tx.credit_account && from
            < amount {
            return Err(Error::InsufficientBalance);
        }
        if tx.debit_account == tx.credit_account {
            return Ok(());
        }
        self.set(tx.credit_account, M::from_mantissa(from - amount));
        let to = self.get(tx.debit_account).mantissa();
        self.set(tx.debit_account, M::from_mantissa(to + amount));
        Ok(())
    }
}

} // verus!
