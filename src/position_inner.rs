//! The isolated-margin position: weighted-average entry, increase, decrease,
//! and the ledger transfers that go with each.

use crate::accounting::{
    InMemoryTransactionAccounting, Transaction, EXCHANGE_FEE_ACCOUNT, TREASURY_ACCOUNT,
    USER_POSITION_MARGIN_ACCOUNT, USER_WALLET_ACCOUNT,
};
use crate::currency::{
    convert_value, convert_wide, converts_by_multiplication, fits_wide, mul_rate, scaled_by,
    scaled_wide, Currency, Decimal, MarginCurrency, QuoteCurrency,
};
use crate::errors::Error;
use crate::decimal::{
    div_round_half_even, fits, lemma_round_half_even_exact, lemma_round_half_even_nonneg,
    lemma_round_half_even_pos, round_half_even, RATE_SCALE,
};
use crate::futures_type::{futures_type_of, pnl_fits, pnl_value};
use vstd::prelude::*;

verus! {

/// `(p1 * q1 + p2 * q2) / (q1 + q2)`, with banker's rounding at the price tick.
pub open spec fn weighted_price(p1: int, q1: int, p2: int, q2: int) -> int {
    round_half_even(p1 * q1 + p2 * q2, q1 + q2)
}

/// The margin that `qty` at `price` locks under `init_margin_req`.
pub open spec fn margin_for(by_mul: bool, qty: int, price: int, init_margin_req: int) -> int {
    scaled_by(convert_value(by_mul, qty, price), init_margin_req)
}

/// `qty` with the side of `direction_multiplier`.
pub open spec fn signed_qty(direction_multiplier: i8, qty: int) -> int {
    if direction_multiplier == 1 {
        qty
    } else {
        -qty
    }
}

/// A margin requirement is a rate in `(0, 1]`.
pub open spec fn valid_margin_req(init_margin_req: Decimal) -> bool {
    0 < init_margin_req.value() <= RATE_SCALE
}

/// Converting a non-negative quantity at a positive price gives a
/// non-negative value, and so does the margin it locks.
pub proof fn lemma_margin_nonneg(by_mul: bool, qty: int, price: int, rate: int)
    requires
        qty >= 0,
        price > 0,
        rate >= 0,
    ensures
        convert_value(by_mul, qty, price) >= 0,
        margin_for(by_mul, qty, price, rate) >= 0,
{
    assert(qty * price >= 0) by (nonlinear_arith)
        requires
            qty >= 0,
            price > 0,
    ;
    assert(qty * 1000 >= 0) by (nonlinear_arith)
        requires
            qty >= 0,
    ;
    lemma_round_half_even_nonneg(qty * price, 1000);
    lemma_round_half_even_nonneg(qty * 1000, price);
    let v = convert_value(by_mul, qty, price);
    assert(v * rate >= 0) by (nonlinear_arith)
        requires
            v >= 0,
            rate >= 0,
    ;
    lemma_round_half_even_nonneg(v * rate, RATE_SCALE as int);
}

/// The weighted price of positive prices is a positive price.
pub proof fn lemma_weighted_price_pos(p1: int, q1: int, p2: int, q2: int)
    requires
        q1 >= 0,
        q2 >= 0,
        q1 + q2 > 0,
        p1 >= 0,
        q1 > 0 ==> p1 > 0,
        p2 > 0,
    ensures
        weighted_price(p1, q1, p2, q2) >= 1,
{
    assert(p1 * q1 >= q1) by (nonlinear_arith)
        requires
            q1 >= 0,
            p1 >= 0,
            q1 > 0 ==> p1 > 0,
    ;
    assert(p2 * q2 >= q2) by (nonlinear_arith)
        requires
            q2 >= 0,
            p2 > 0,
    ;
    lemma_round_half_even_pos(p1 * q1 + p2 * q2, q1 + q2);
}

/// A weighted average lies no higher than the larger of its two prices.
pub proof fn lemma_weighted_price_le(p1: int, q1: int, p2: int, q2: int)
    requires
        q1 >= 0,
        q2 >= 0,
        q1 + q2 > 0,
        p1 >= 0,
        p2 >= 0,
    ensures
        weighted_price(p1, q1, p2, q2) <= if p1 >= p2 {
            p1
        } else {
            p2
        },
{
    let m = if p1 >= p2 {
        p1
    } else {
        p2
    };
    let n = p1 * q1 + p2 * q2;
    let d = q1 + q2;
    assert(n <= m * d) by (nonlinear_arith)
        requires
            q1 >= 0,
            q2 >= 0,
            p1 <= m,
            p2 <= m,
            n == p1 * q1 + p2 * q2,
            d == q1 + q2,
    ;
    vstd::arithmetic::div_mod::lemma_div_is_ordered(n, m * d, d);
    vstd::arithmetic::div_mod::lemma_div_multiples_vanish(m, d);
    vstd::arithmetic::div_mod::lemma_fundamental_div_mod(n, d);
    if n / d == m {
        assert(n % d == 0) by (nonlinear_arith)
            requires
                n == d * (n / d) + n % d,
                n / d == m,
                n <= m * d,
                n % d >= 0,
        ;
    }
    crate::decimal::lemma_round_half_even_bounds(n, d);
}

/// Describes the position information of the account. It assumes the
/// isolated margin mechanism: the margin is tied to the position. The
/// quantity is the size of the position; its side is kept by the caller.
pub struct PositionInner<Q: Currency> {
    /// The number of futures contracts making up the position.
    quantity: Q,
    /// The average price at which this position was entered.
    entry_price: QuoteCurrency,
    /// The fees accrued by maker fills, paid when the position is reduced.
    outstanding_fees: Q::PairedCurrency,
}

impl<Q: Currency> PositionInner<Q> {
    #[verifier::type_invariant]
    spec fn inv(self) -> bool {
        &&& self.quantity.value() >= 0
        &&& self.entry_price.value() >= 0
        &&& self.quantity.value() > 0 ==> self.entry_price.value() > 0
    }

    /// The size of the position, as a scaled mantissa.
    pub closed spec fn qty(self) -> int {
        self.quantity.value()
    }

    /// The average entry price, as a scaled mantissa.
    pub closed spec fn entry(self) -> int {
        self.entry_price.value()
    }

    /// The outstanding fees, as a scaled mantissa.
    pub closed spec fn fees(self) -> int {
        self.outstanding_fees.value()
    }

    /// What every position satisfies: a non-negative size, and a positive
    /// entry price while the size is positive.
    pub open spec fn valid(self) -> bool {
        &&& self.qty() >= 0
        &&& self.entry() >= 0
        &&& self.qty() > 0 ==> self.entry() > 0
    }

    /// The cost of the position, in the margin currency.
    pub open spec fn cost(self) -> int {
        if self.qty() == 0 {
            0
        } else {
            convert_value(Q::converts_by_multiplication(), self.qty(), self.entry())
        }
    }

    /// The profit and loss of the position were it closed at `mark`.
    pub open spec fn upnl(self, mark: int) -> int {
        if self.qty() == 0 {
            0
        } else {
            pnl_value(
                futures_type_of(Q::converts_by_multiplication()),
                Q::converts_by_multiplication(),
                self.entry(),
                mark,
                self.qty(),
            )
        }
    }

    /// A position made of the given parts.
    pub fn from_parts(
        quantity: Q,
        entry_price: QuoteCurrency,
        outstanding_fees: Q::PairedCurrency,
    ) -> (r: Self)
        requires
            quantity.value() >= 0,
            entry_price.value() >= 0,
            quantity.value() > 0 ==> entry_price.value() > 0,
        ensures
            r.qty() == quantity.value(),
            r.entry() == entry_price.value(),
            r.fees() == outstanding_fees.value(),
    {
        PositionInner { quantity, entry_price, outstanding_fees }
    }

    /// The flat position.
    pub fn flat() -> (r: Self)
        ensures
            r.qty() == 0,
            r.entry() == 0,
            r.fees() == 0,
    {
        PositionInner {
            quantity: Q::from_mantissa(0),
            entry_price: QuoteCurrency::new(0, 0),
            outstanding_fees: Q::PairedCurrency::from_mantissa(0),
        }
    }

    /// The number of futures contracts making up the position.
    pub fn quantity(&self) -> (r: Q)
        ensures
            r.value() == self.qty(),
            self.valid(),
    {
        proof {
            use_type_invariant(self);
        }
        self.quantity
    }

    /// The average entry price.
    pub fn entry_price(&self) -> (r: QuoteCurrency)
        ensures
            r.value() == self.entry(),
            self.valid(),
    {
        proof {
            use_type_invariant(self);
        }
        self.entry_price
    }

    /// The fees still to be paid when the position is reduced.
    pub fn outstanding_fees(&self) -> (r: Q::PairedCurrency)
        ensures
            r.value() == self.fees(),
    {
        self.outstanding_fees
    }

    /// The cost of the position: its quantity converted at the entry price.
    pub fn total_cost(&self) -> (r: Q::PairedCurrency)
        requires
            fits(self.cost()),
        ensures
            r.value() == self.cost(),
    {
        proof {
            use_type_invariant(self);
        }
        if self.quantity.mantissa() == 0 {
            Q::PairedCurrency::from_mantissa(0)
        } else {
            self.quantity.convert(self.entry_price)
        }
    }

    /// The unrealized profit and loss at `mark_to_market_price`: in QUOTE for
    /// linear futures, in BASE for inverse futures.
    pub fn unrealized_pnl(&self, mark_to_market_price: QuoteCurrency) -> (r: Q::PairedCurrency)
        requires
            mark_to_market_price.value() > 0,
            self.qty() > 0 ==> pnl_fits(
                Q::converts_by_multiplication(),
                self.entry(),
                mark_to_market_price.value(),
                self.qty(),
            ),
        ensures
            r.value() == self.upnl(mark_to_market_price.value()),
    {
        proof {
            use_type_invariant(self);
        }
        if self.quantity.mantissa() == 0 {
            Q::PairedCurrency::from_mantissa(0)
        } else {
            let ft = Q::futures_type();
            ft.pnl(self.entry_price, mark_to_market_price, self.quantity)
        }
    }

    /// Whether the amounts of opening `quantity` at `entry_price` fit a
    /// mantissa.
    pub open spec fn open_fits(
        acc: InMemoryTransactionAccounting<Q::PairedCurrency>,
        quantity: int,
        entry_price: int,
        init_margin_req: Decimal,
    ) -> bool {
        let by_mul = Q::converts_by_multiplication();
        let margin = margin_for(by_mul, quantity, entry_price, init_margin_req.value());
        &&& fits(convert_value(by_mul, quantity, entry_price))
        &&& fits(margin)
        &&& fits(acc.margin_balance() + margin)
    }

    /// Whether `new` can open `quantity` at `entry_price` against `acc`: the
    /// wallet covers the initial margin and no balance overflows.
    pub open spec fn can_open(
        acc: InMemoryTransactionAccounting<Q::PairedCurrency>,
        quantity: int,
        entry_price: int,
        init_margin_req: Decimal,
    ) -> bool {
        &&& Self::open_fits(acc, quantity, entry_price, init_margin_req)
        &&& acc.wallet_balance() >= margin_for(
            Q::converts_by_multiplication(),
            quantity,
            entry_price,
            init_margin_req.value(),
        )
    }

    /// Create a new position of `quantity` entered at `entry_price`, locking
    /// its initial margin: the wallet pays it into the position margin. The
    /// margin account must be empty, as it is while no position is open.
    pub fn new(
        quantity: Q,
        entry_price: QuoteCurrency,
        accounting: &mut InMemoryTransactionAccounting<Q::PairedCurrency>,
        init_margin_req: Decimal,
        fees: Q::PairedCurrency,
    ) -> (r: Self)
        requires
            quantity.value() > 0,
            entry_price.value() > 0,
            valid_margin_req(init_margin_req),
            old(accounting).wf(),
            old(accounting).margin_balance() == 0,
            Self::can_open(*old(accounting), quantity.value(), entry_price.value(), init_margin_req),
        ensures
            r.qty() == quantity.value(),
            r.entry() == entry_price.value(),
            r.fees() == fees.value(),
            ({
                let margin = margin_for(
                    Q::converts_by_multiplication(),
                    quantity.value(),
                    entry_price.value(),
                    init_margin_req.value(),
                );
                &&& final(accounting).wallet_balance() == old(accounting).wallet_balance() - margin
                &&& final(accounting).margin_balance() == old(accounting).margin_balance() + margin
            }),
            final(accounting).balance(EXCHANGE_FEE_ACCOUNT as int) == old(accounting).balance(
                EXCHANGE_FEE_ACCOUNT as int,
            ),
            final(accounting).balance(TREASURY_ACCOUNT as int) == old(accounting).balance(
                TREASURY_ACCOUNT as int,
            ),
            final(accounting).total() == old(accounting).total(),
            final(accounting).wf(),
    {
        proof {
            lemma_margin_nonneg(
                Q::converts_by_multiplication(),
                quantity.value(),
                entry_price.value(),
                init_margin_req.value(),
            );
        }
        let margin = mul_rate(quantity.convert(entry_price), init_margin_req);
        let transaction = Transaction::new(
            USER_POSITION_MARGIN_ACCOUNT,
            USER_WALLET_ACCOUNT,
            margin,
        );
        let _ = accounting.create_margin_transfer(transaction);
        PositionInner { quantity, entry_price, outstanding_fees: fees }
    }

    /// Whether `increase_contracts` can add `qty` at `price` against `acc`.
    pub open spec fn can_increase(
        self,
        acc: InMemoryTransactionAccounting<Q::PairedCurrency>,
        qty: int,
        price: int,
        init_margin_req: Decimal,
        fees: int,
    ) -> bool {
        &&& Self::can_open(acc, qty, price, init_margin_req)
        &&& fits(self.qty() + qty)
        &&& fits(self.fees() + fees)
    }

    /// Add `qty` contracts bought at `entry_price`: the entry price becomes
    /// the weighted average, the fees accrue, and the wallet pays the initial
    /// margin of the added value into the position margin.
    pub fn increase_contracts(
        &mut self,
        qty: Q,
        entry_price: QuoteCurrency,
        accounting: &mut InMemoryTransactionAccounting<Q::PairedCurrency>,
        init_margin_req: Decimal,
        fees: Q::PairedCurrency,
    )
        requires
            qty.value() >= 0,
            old(self).qty() + qty.value() > 0,
            entry_price.value() > 0,
            valid_margin_req(init_margin_req),
            old(accounting).wf(),
            old(self).can_increase(
                *old(accounting),
                qty.value(),
                entry_price.value(),
                init_margin_req,
                fees.value(),
            ),
        ensures
            final(self).qty() == old(self).qty() + qty.value(),
            final(self).entry() == weighted_price(
                old(self).entry(),
                old(self).qty(),
                entry_price.value(),
                qty.value(),
            ),
            final(self).fees() == old(self).fees() + fees.value(),
            ({
                let margin = margin_for(
                    Q::converts_by_multiplication(),
                    qty.value(),
                    entry_price.value(),
                    init_margin_req.value(),
                );
                &&& final(accounting).wallet_balance() == old(accounting).wallet_balance() - margin
                &&& final(accounting).margin_balance() == old(accounting).margin_balance() + margin
            }),
            final(accounting).balance(EXCHANGE_FEE_ACCOUNT as int) == old(accounting).balance(
                EXCHANGE_FEE_ACCOUNT as int,
            ),
            final(accounting).balance(TREASURY_ACCOUNT as int) == old(accounting).balance(
                TREASURY_ACCOUNT as int,
            ),
            final(accounting).total() == old(accounting).total(),
            final(accounting).wf(),
    {
        proof {
            use_type_invariant(&*self);
            lemma_margin_nonneg(
                Q::converts_by_multiplication(),
                qty.value(),
                entry_price.value(),
                init_margin_req.value(),
            );
            lemma_weighted_price_pos(
                self.entry(),
                self.qty(),
                entry_price.value(),
                qty.value(),
            );
        }
        let value = qty.convert(entry_price);
        let p1 = self.entry_price.mantissa() as i128;
        let q1 = self.quantity.mantissa() as i128;
        let p2 = entry_price.mantissa() as i128;
        let q2 = qty.mantissa() as i128;
        assert(p1 * q1 + p2 * q2 < 0x7fff_ffff_ffff_ffff_ffff_ffff_ffff_ffff) by (nonlinear_arith)
            requires
                0 <= p1 < 0x8000_0000_0000_0000,
                0 <= q1 < 0x8000_0000_0000_0000,
                0 <= p2 < 0x8000_0000_0000_0000,
                0 <= q2 < 0x8000_0000_0000_0000,
        ;
        assert(p1 * q1 + p2 * q2 >= 0) by (nonlinear_arith)
            requires
                0 <= p1,
                0 <= q1,
                0 <= p2,
                0 <= q2,
        ;
        let new_entry = div_round_half_even(p1 * q1 + p2 * q2, q1 + q2);
        proof {
            lemma_weighted_price_le(self.entry(), self.qty(), entry_price.value(), qty.value());
        }
        self.entry_price = QuoteCurrency::from_mantissa(new_entry as i64);
        self.quantity = Q::from_mantissa((q1 + q2) as i64);
        self.outstanding_fees = Q::PairedCurrency::from_mantissa(
            self.outstanding_fees.mantissa() + fees.mantissa(),
        );

        let margin = mul_rate(value, init_margin_req);
        let transaction = Transaction::new(
            USER_POSITION_MARGIN_ACCOUNT,
            USER_WALLET_ACCOUNT,
            margin,
        );
        let _ = accounting.create_margin_transfer(transaction);
    }

    /// The profit and loss realized by reducing the position by `qty` at
    /// `exit`; `direction_multiplier` is `1` for a long and `-1` for a short.
    pub open spec fn realized(self, qty: int, exit: int, direction_multiplier: i8) -> int {
        pnl_value(
            futures_type_of(Q::converts_by_multiplication()),
            Q::converts_by_multiplication(),
            self.entry(),
            exit,
            signed_qty(direction_multiplier, qty),
        )
    }

    /// The margin released by reducing the position by `qty`: the initial
    /// margin of `qty` at the entry price, or, when the position closes, all
    /// the margin it still holds.
    pub open spec fn release(
        self,
        acc: InMemoryTransactionAccounting<Q::PairedCurrency>,
        qty: int,
        init_margin_req: Decimal,
    ) -> int {
        if qty == self.qty() {
            acc.margin_balance()
        } else {
            margin_for(Q::converts_by_multiplication(), qty, self.entry(), init_margin_req.value())
        }
    }

    /// Whether every amount that `decrease_contracts` computes fits a
    /// mantissa.
    pub open spec fn decrease_fits(
        self,
        acc: InMemoryTransactionAccounting<Q::PairedCurrency>,
        qty: int,
        exit: int,
        init_margin_req: Decimal,
        direction_multiplier: i8,
        fees: int,
    ) -> bool {
        let by_mul = Q::converts_by_multiplication();
        let pnl = self.realized(qty, exit, direction_multiplier);
        let rel = self.release(acc, qty, init_margin_req);
        let f = self.fees() + fees;
        let w = acc.wallet_balance() + rel + pnl;
        &&& pnl_fits(by_mul, self.entry(), exit, signed_qty(direction_multiplier, qty))
        &&& fits(convert_value(by_mul, qty, self.entry()))
        &&& fits(margin_for(by_mul, qty, self.entry(), init_margin_req.value()))
        &&& fits(acc.wallet_balance() + rel)
        &&& fits(w)
        &&& fits(acc.balance(TREASURY_ACCOUNT as int) - pnl)
        &&& fits(f)
        &&& fits(acc.balance(EXCHANGE_FEE_ACCOUNT as int) + f)
        &&& fits(w - f)
    }

    /// Whether the margin account holds what `decrease_contracts` releases
    /// and the wallet covers the loss and the fees.
    pub open spec fn decrease_covered(
        self,
        acc: InMemoryTransactionAccounting<Q::PairedCurrency>,
        qty: int,
        exit: int,
        init_margin_req: Decimal,
        direction_multiplier: i8,
        fees: int,
    ) -> bool {
        let pnl = self.realized(qty, exit, direction_multiplier);
        let rel = self.release(acc, qty, init_margin_req);
        let f = self.fees() + fees;
        let w = acc.wallet_balance() + rel + pnl;
        &&& rel <= acc.margin_balance()
        &&& w >= (if f > 0 {
            f
        } else {
            0
        })
    }

    /// Whether `decrease_contracts` can reduce the position against `acc`:
    /// the margin account holds what is released, the wallet covers the loss
    /// and the fees, and no balance overflows.
    pub open spec fn can_decrease(
        self,
        acc: InMemoryTransactionAccounting<Q::PairedCurrency>,
        qty: int,
        exit: int,
        init_margin_req: Decimal,
        direction_multiplier: i8,
        fees: int,
    ) -> bool {
        &&& self.decrease_fits(acc, qty, exit, init_margin_req, direction_multiplier, fees)
        &&& self.decrease_covered(acc, qty, exit, init_margin_req, direction_multiplier, fees)
    }

    /// Reduce the position by `qty` at `liquidation_price`. The realized
    /// profit comes from the treasury (a loss goes to it), the released
    /// margin returns to the wallet, and the outstanding fees together with
    /// `fees` are settled with the exchange-fee account and reset to zero.
    ///
    /// Settlement goes both ways: a net fee is paid from the wallet, and a
    /// net rebate (negative fees, from negative maker fees) is paid into it,
    /// also on a partial close. Settling only positive fees would leave a
    /// rebate standing on a flat position, against the rule that a flat
    /// position carries no outstanding fees.
    pub fn decrease_contracts(
        &mut self,
        qty: Q,
        liquidation_price: QuoteCurrency,
        accounting: &mut InMemoryTransactionAccounting<Q::PairedCurrency>,
        init_margin_req: Decimal,
        direction_multiplier: i8,
        fees: Q::PairedCurrency,
    )
        requires
            qty.value() > 0,
            qty.value() <= old(self).qty(),
            liquidation_price.value() > 0,
            direction_multiplier == 1 || direction_multiplier == -1,
            valid_margin_req(init_margin_req),
            old(accounting).wf(),
            old(self).can_decrease(
                *old(accounting),
                qty.value(),
                liquidation_price.value(),
                init_margin_req,
                direction_multiplier,
                fees.value(),
            ),
        ensures
            final(self).qty() == old(self).qty() - qty.value(),
            final(self).entry() == old(self).entry(),
            final(self).fees() == 0,
            ({
                let pnl = old(self).realized(
                    qty.value(),
                    liquidation_price.value(),
                    direction_multiplier,
                );
                let rel = old(self).release(*old(accounting), qty.value(), init_margin_req);
                let f = old(self).fees() + fees.value();
                &&& final(accounting).wallet_balance() == old(accounting).wallet_balance() + rel
                    + pnl - f
                &&& final(accounting).margin_balance() == old(accounting).margin_balance() - rel
                &&& final(accounting).balance(TREASURY_ACCOUNT as int) == old(accounting).balance(
                    TREASURY_ACCOUNT as int,
                ) - pnl
                &&& final(accounting).balance(EXCHANGE_FEE_ACCOUNT as int) == old(
                    accounting,
                ).balance(EXCHANGE_FEE_ACCOUNT as int) + f
            }),
            final(self).qty() == 0 ==> final(accounting).margin_balance() == 0,
            final(accounting).total() == old(accounting).total(),
            final(accounting).wf(),
    {
        proof {
            use_type_invariant(&*self);
            lemma_margin_nonneg(
                Q::converts_by_multiplication(),
                qty.value(),
                self.entry(),
                init_margin_req.value(),
            );
        }
        let entry_price = self.entry_price;
        let q = qty.mantissa();
        let total = self.quantity.mantissa();

        // release the margin
        let margin_to_free = if q == total {
            accounting.position_margin()
        } else {
            mul_rate(qty.convert(entry_price), init_margin_req)
        };
        let transaction = Transaction::new(
            USER_WALLET_ACCOUNT,
            USER_POSITION_MARGIN_ACCOUNT,
            margin_to_free,
        );
        let _ = accounting.create_margin_transfer(transaction);

        // settle the realized profit and loss with the treasury
        let signed = if direction_multiplier == 1 {
            qty
        } else {
            Q::from_mantissa(-q)
        };
        let ft = Q::futures_type();
        let pnl = ft.pnl(entry_price, liquidation_price, signed).mantissa();
        if pnl > 0 {
            let transaction = Transaction::new(
                USER_WALLET_ACCOUNT,
                TREASURY_ACCOUNT,
                Q::PairedCurrency::from_mantissa(pnl),
            );
            let _ = accounting.create_margin_transfer(transaction);
        } else if pnl < 0 {
            let transaction = Transaction::new(
                TREASURY_ACCOUNT,
                USER_WALLET_ACCOUNT,
                Q::PairedCurrency::from_mantissa(-pnl),
            );
            let _ = accounting.create_margin_transfer(transaction);
        }

        // settle the outstanding fees with the exchange
        let f = self.outstanding_fees.mantissa() + fees.mantissa();
        if f > 0 {
            let transaction = Transaction::new(
                EXCHANGE_FEE_ACCOUNT,
                USER_WALLET_ACCOUNT,
                Q::PairedCurrency::from_mantissa(f),
            );
            let _ = accounting.create_margin_transfer(transaction);
        } else if f < 0 {
            let transaction = Transaction::new(
                USER_WALLET_ACCOUNT,
                EXCHANGE_FEE_ACCOUNT,
                Q::PairedCurrency::from_mantissa(-f),
            );
            let _ = accounting.create_margin_transfer(transaction);
        }
        self.quantity = Q::from_mantissa(total - q);
        self.outstanding_fees = Q::PairedCurrency::from_mantissa(0);
    }
}

} // verus!

verus! {

impl<Q: Currency> PositionInner<Q> {
    /// Force-closes the whole position at `mark_price` with no additional
    /// fee: a decrease by the full quantity, after which the position is flat.
    pub fn liquidate(
        &mut self,
        mark_price: QuoteCurrency,
        accounting: &mut InMemoryTransactionAccounting<Q::PairedCurrency>,
        init_margin_req: Decimal,
        direction_multiplier: i8,
    )
        requires
            old(self).qty() > 0,
            mark_price.value() > 0,
            direction_multiplier == 1 || direction_multiplier == -1,
            valid_margin_req(init_margin_req),
            old(accounting).wf(),
            old(self).can_decrease(
                *old(accounting),
                old(self).qty(),
                mark_price.value(),
                init_margin_req,
                direction_multiplier,
                0,
            ),
        ensures
            final(self).qty() == 0,
            final(self).fees() == 0,
            final(self).entry() == old(self).entry(),
            final(accounting).wallet_balance() == old(accounting).wallet_balance()
                + old(accounting).margin_balance() + old(self).realized(
                old(self).qty(),
                mark_price.value(),
                direction_multiplier,
            ) - old(self).fees(),
            final(accounting).margin_balance() == 0,
            final(accounting).total() == old(accounting).total(),
            final(accounting).wf(),
    {
        let qty = self.quantity();
        self.decrease_contracts(
            qty,
            mark_price,
            accounting,
            init_margin_req,
            direction_multiplier,
            Q::PairedCurrency::from_mantissa(0),
        );
    }
}

impl<Q: Currency> PositionInner<Q> {
    /// Tells whether `decrease_contracts` may be called with these
    /// arguments: `Overflow` when an amount would leave the range of a
    /// mantissa, else `InsufficientBalance` when the ledger does not cover
    /// the decrease.
    pub fn check_decrease(
        &self,
        accounting: &InMemoryTransactionAccounting<Q::PairedCurrency>,
        qty: Q,
        exit_price: QuoteCurrency,
        init_margin_req: Decimal,
        direction_multiplier: i8,
        fees: Q::PairedCurrency,
    ) -> (r: Result<(), Error>)
        requires
            qty.value() > 0,
            qty.value() <= self.qty(),
            exit_price.value() > 0,
            direction_multiplier == 1 || direction_multiplier == -1,
            accounting.wf(),
        ensures
            r is Ok <==> self.can_decrease(
                *accounting,
                qty.value(),
                exit_price.value(),
                init_margin_req,
                direction_multiplier,
                fees.value(),
            ),
            r == Err::<(), Error>(Error::Overflow) <==> !self.decrease_fits(
                *accounting,
                qty.value(),
                exit_price.value(),
                init_margin_req,
                direction_multiplier,
                fees.value(),
            ),
            r matches Err(e) ==> e == Error::Overflow || e == Error::InsufficientBalance,
    {
        proof {
            use_type_invariant(self);
        }
        let by_mul = converts_by_multiplication::<Q>();
        let entry = self.entry_price.mantissa();
        let exit = exit_price.mantissa();
        let q = qty.mantissa();
        let sq = if direction_multiplier == 1 {
            q
        } else {
            -q
        };
        let at_entry = convert_wide(by_mul, sq, entry);
        let at_exit = convert_wide(by_mul, sq, exit);
        if !fits_wide(at_entry) || !fits_wide(at_exit) || !fits_wide(at_exit - at_entry) {
            return Err(Error::Overflow);
        }
        let pnl = if by_mul {
            at_exit - at_entry
        } else {
            at_entry - at_exit
        };
        let value = convert_wide(by_mul, q, entry);
        if !fits_wide(value) {
            return Err(Error::Overflow);
        }
        let margin = scaled_wide(value as i64, init_margin_req.mantissa());
        if !fits_wide(margin) {
            return Err(Error::Overflow);
        }
        let held = accounting.position_margin().mantissa() as i128;
        let rel = if q == self.quantity.mantissa() {
            held
        } else {
            margin
        };
        let wallet = accounting.wallet().mantissa() as i128;
        let treasury = accounting.get(TREASURY_ACCOUNT).mantissa() as i128;
        let fee_account = accounting.get(EXCHANGE_FEE_ACCOUNT).mantissa() as i128;
        let w = wallet + rel + pnl;
        if !fits_wide(wallet + rel) || !fits_wide(w) || !fits_wide(treasury - pnl) {
            return Err(Error::Overflow);
        }
        let f = (self.outstanding_fees.mantissa() as i128) + (fees.mantissa() as i128);
        if !fits_wide(f) || !fits_wide(fee_account + f) || !fits_wide(w - f) {
            return Err(Error::Overflow);
        }
        let owed = if f > 0 {
            f
        } else {
            0
        };
        if rel > held || w < owed {
            return Err(Error::InsufficientBalance);
        }
        Ok(())
    }
}

impl<Q: Currency> PositionInner<Q> {
    /// Tells whether `increase_contracts` may be called with these
    /// arguments: `Overflow` when an amount would leave the range of a
    /// mantissa, else `InsufficientBalance` when the wallet does not cover
    /// the initial margin.
    pub fn check_increase(
        &self,
        accounting: &InMemoryTransactionAccounting<Q::PairedCurrency>,
        qty: Q,
        entry_price: QuoteCurrency,
        init_margin_req: Decimal,
        fees: Q::PairedCurrency,
    ) -> (r: Result<(), Error>)
        requires
            entry_price.value() > 0,
            accounting.wf(),
        ensures
            r is Ok <==> self.can_increase(
                *accounting,
                qty.value(),
                entry_price.value(),
                init_margin_req,
                fees.value(),
            ),
            r == Err::<(), Error>(Error::Overflow) <==> !(Self::open_fits(
                *accounting,
                qty.value(),
                entry_price.value(),
                init_margin_req,
            ) && fits(self.qty() + qty.value()) && fits(self.fees() + fees.value())),
            r matches Err(e) ==> e == Error::Overflow || e == Error::InsufficientBalance,
    {
        let by_mul = converts_by_multiplication::<Q>();
        let q = qty.mantissa();
        let value = convert_wide(by_mul, q, entry_price.mantissa());
        if !fits_wide(value) {
            return Err(Error::Overflow);
        }
        let margin = scaled_wide(value as i64, init_margin_req.mantissa());
        if !fits_wide(margin) {
            return Err(Error::Overflow);
        }
        let held = accounting.position_margin().mantissa() as i128;
        let total = (self.quantity.mantissa() as i128) + (q as i128);
        let f = (self.outstanding_fees.mantissa() as i128) + (fees.mantissa() as i128);
        if !fits_wide(held + margin) || !fits_wide(total) || !fits_wide(f) {
            return Err(Error::Overflow);
        }
        if (accounting.wallet().mantissa() as i128) < margin {
            return Err(Error::InsufficientBalance);
        }
        Ok(())
    }
}

/// Increasing a position by nothing leaves its weighted entry price where
/// it was.
pub proof fn lemma_increase_by_zero_keeps_entry(entry: int, qty: int, price: int)
    requires
        qty > 0,
    ensures
        weighted_price(entry, qty, price, 0) == entry,
{
    assert(entry * qty + price * 0 == entry * qty) by (nonlinear_arith);
    lemma_round_half_even_exact(entry, qty);
}

/// Opening a position on a ledger with no locked margin and then closing
/// all of it at the entry price, with no fee either way, leaves the wallet
/// where it started. `opened` and `position` are what `PositionInner::new`
/// ensures of `start`; `closed` is what `decrease_contracts` ensures of
/// `opened` when it reduces by the whole quantity at the same price.
pub proof fn lemma_round_trip<Q: Currency>(
    start: InMemoryTransactionAccounting<Q::PairedCurrency>,
    opened: InMemoryTransactionAccounting<Q::PairedCurrency>,
    position: PositionInner<Q>,
    closed: InMemoryTransactionAccounting<Q::PairedCurrency>,
    qty: int,
    price: int,
    init_margin_req: Decimal,
    direction_multiplier: i8,
)
    requires
        qty > 0,
        price > 0,
        direction_multiplier == 1 || direction_multiplier == -1,
        start.margin_balance() == 0,
        position.qty() == qty,
        position.entry() == price,
        position.fees() == 0,
        opened.wallet_balance() == start.wallet_balance() - margin_for(
            Q::converts_by_multiplication(),
            qty,
            price,
            init_margin_req.value(),
        ),
        opened.margin_balance() == start.margin_balance() + margin_for(
            Q::converts_by_multiplication(),
            qty,
            price,
            init_margin_req.value(),
        ),
        closed.wallet_balance() == opened.wallet_balance() + position.release(
            opened,
            qty,
            init_margin_req,
        ) + position.realized(qty, price, direction_multiplier) - (position.fees() + 0),
    ensures
        closed.wallet_balance() == start.wallet_balance(),
{
}

} // verus!

verus! {

/// How a fill of signed size `fill` applies to a position of signed size
/// `position`: the part that reduces the position, and the signed part that
/// opens or increases it. A fill against the position's side that is larger
/// than the position is split, so that closing and opening never mix.
pub open spec fn fill_legs(position: int, fill: int) -> (int, int) {
    if position == 0 || (position > 0) == (fill > 0) || fill == 0 {
        (0, fill)
    } else if abs(fill) <= abs(position) {
        (abs(fill), 0)
    } else {
        (abs(position), fill + position)
    }
}

/// `|x|`.
pub open spec fn abs(x: int) -> int {
    if x < 0 {
        -x
    } else {
        x
    }
}

/// Splits a fill into its decrease leg (an unsigned quantity) and its
/// signed increase leg.
pub fn split_fill(position: i64, fill: i64) -> (r: (i64, i64))
    requires
        fits(position as int),
        fits(fill as int),
    ensures
        (r.0 as int, r.1 as int) == fill_legs(position as int, fill as int),
        r.0 >= 0,
        r.0 <= abs(position as int),
        (r.1 as int) + (if fill < 0 {
            -(r.0 as int)
        } else {
            r.0 as int
        }) == fill,
{
    if position == 0 || (position > 0) == (fill > 0) || fill == 0 {
        (0, fill)
    } else {
        let f = if fill < 0 {
            -fill
        } else {
            fill
        };
        let p = if position < 0 {
            -position
        } else {
            position
        };
        if f <= p {
            (f, 0)
        } else {
            (p, fill + position)
        }
    }
}

} // verus!
