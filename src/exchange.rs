//! The exchange: one user's isolated-margin position, its ledger and the
//! market, advanced one event at a time.

use crate::accounting::{
    InMemoryTransactionAccounting, EXCHANGE_FEE_ACCOUNT, TREASURY_ACCOUNT,
    USER_POSITION_MARGIN_ACCOUNT, USER_WALLET_ACCOUNT,
};
use crate::currency::{
    convert_value, scaled_by, convert_wide, converts_by_multiplication, fits_wide, scaled_wide, Currency, Decimal,
    MarginCurrency, QuoteCurrency,
};
use crate::decimal::fits;
use crate::errors::Error;
use crate::leverage::{ContractSpecification, Leverage};
use crate::market_state::MarketState;
use crate::order_book::{
    fills_prefix, has_order, opposite, touches, well_placed, Fill, LimitOrder, OrderBook, Side,
};
use crate::position_inner::{abs, fill_legs, split_fill, valid_margin_req, PositionInner};
use crate::risk_engine::{equity, maintenance_of, IsolatedMarginRiskEngine};
use vstd::prelude::*;

verus! {

/// A fill of `q` on `side`, signed: positive for a buy.
pub open spec fn signed_fill(side: Side, q: int) -> int {
    match side {
        Side::Buy => q,
        Side::Sell => -q,
    }
}

/// The price a taker on `side` trades at: the ask for a buy, the bid for a
/// sell.
pub open spec fn touch(m: MarketState, side: Side) -> int {
    match side {
        Side::Buy => m.ask_value(),
        Side::Sell => m.bid_value(),
    }
}

/// Whether a limit order on `side` at `price` reaches the touch.
pub open spec fn crosses_touch(m: MarketState, side: Side, price: int) -> bool {
    &&& m.has_quote()
    &&& match side {
        Side::Buy => price >= m.ask_value(),
        Side::Sell => price <= m.bid_value(),
    }
}

/// The side of `book` that a trade print at `price` reaches first.
pub open spec fn trade_side(book: OrderBook, price: int) -> Side {
    if book.trade_hits_bids(price) {
        Side::Buy
    } else {
        Side::Sell
    }
}

/// The simulated exchange of one user.
pub struct Exchange<Q: Currency> {
    accounting: InMemoryTransactionAccounting<Q::PairedCurrency>,
    position: PositionInner<Q>,
    direction: i8,
    market: MarketState,
    risk: IsolatedMarginRiskEngine,
    init_margin_req: Decimal,
    fee_maker: Decimal,
    fee_taker: Decimal,
    book: OrderBook,
    starting_balance: Ghost<int>,
}

impl<Q: Currency> Exchange<Q> {
    /// The ledger.
    pub closed spec fn ledger(self) -> InMemoryTransactionAccounting<Q::PairedCurrency> {
        self.accounting
    }

    /// The position's size, entry price and fees.
    pub closed spec fn pos(self) -> PositionInner<Q> {
        self.position
    }

    /// The position's side: `1` long, `-1` short.
    pub closed spec fn side(self) -> i8 {
        self.direction
    }

    /// The market state.
    pub closed spec fn market_view(self) -> MarketState {
        self.market
    }

    /// The risk engine.
    pub closed spec fn risk_view(self) -> IsolatedMarginRiskEngine {
        self.risk
    }

    /// The user's resting limit orders.
    pub closed spec fn book_view(self) -> OrderBook {
        self.book
    }

    /// The wallet endowment the exchange started with.
    pub closed spec fn starting(self) -> int {
        self.starting_balance@
    }

    /// The initial margin requirement.
    pub closed spec fn imr(self) -> Decimal {
        self.init_margin_req
    }

    /// The taker fee rate.
    pub closed spec fn taker(self) -> Decimal {
        self.fee_taker
    }

    /// The maker fee rate.
    pub closed spec fn maker(self) -> Decimal {
        self.fee_maker
    }

    /// The fee at `rate` of `q` contracts at `price`.
    pub open spec fn fee_value(q: int, price: int, rate: Decimal) -> int {
        scaled_by(convert_value(Q::converts_by_multiplication(), q, price), rate.value())
    }

    /// Whether the fee at `rate` of `q` contracts at `price` can be computed.
    pub open spec fn fee_fits(q: int, price: int, rate: Decimal) -> bool {
        &&& fits(convert_value(Q::converts_by_multiplication(), q, price))
        &&& fits(Self::fee_value(q, price, rate))
    }

    /// Whether the position can be reduced by `d` at `price`, paying the fee
    /// at `rate`.
    pub open spec fn decrease_ok(self, d: int, price: int, rate: Decimal) -> bool {
        &&& Self::fee_fits(d, price, rate)
        &&& self.pos().can_decrease(
            self.ledger(),
            d,
            price,
            self.imr(),
            self.side(),
            Self::fee_value(d, price, rate),
        )
    }

    /// Whether the position can be opened or increased by `o` at `price`,
    /// paying the fee at `rate`.
    pub open spec fn increase_ok(self, o: int, price: int, rate: Decimal) -> bool {
        &&& Self::fee_fits(o, price, rate)
        &&& self.pos().can_increase(
            self.ledger(),
            o,
            price,
            self.imr(),
            Self::fee_value(o, price, rate),
        )
    }

    /// A fill that cannot be carried out from this state: its reducing part
    /// cannot be posted, or, with nothing to reduce, its opening part cannot.
    pub open spec fn fill_blocked(self, side: Side, q: int, price: int, rate: Decimal) -> bool {
        let legs = fill_legs(self.signed_position(), signed_fill(side, q));
        if legs.0 > 0 {
            !self.decrease_ok(legs.0, price, rate)
        } else {
            !self.increase_ok(abs(legs.1), price, rate)
        }
    }

    /// The signed size of the position: positive long, negative short.
    pub open spec fn signed_position(self) -> int {
        if self.side() == 1 {
            self.pos().qty()
        } else {
            -self.pos().qty()
        }
    }

    /// The exchange's invariant: value is conserved, user balances are never
    /// negative, and a flat position has no fees and no locked margin.
    pub open spec fn wf(self) -> bool {
        &&& self.ledger().wf()
        &&& self.ledger().total() == self.starting()
        &&& self.side() == 1 || self.side() == -1
        &&& valid_margin_req(self.imr())
        &&& self.book_view().wf()
        &&& self.pos().qty() == 0 ==> self.pos().fees() == 0 && self.ledger().margin_balance() == 0
    }

    /// An exchange whose wallet holds `starting_balance`, with a flat
    /// position and a market that has seen no event.
    pub fn new(
        starting_balance: Q::PairedCurrency,
        leverage: Leverage,
        contract_spec: ContractSpecification,
        fee_maker: Decimal,
        fee_taker: Decimal,
        max_orders: usize,
    ) -> (r: Self)
        requires
            starting_balance.value() >= 0,
        ensures
            r.wf(),
            r.starting() == starting_balance.value(),
            r.ledger().wallet_balance() == starting_balance.value(),
            r.pos().qty() == 0,
            r.imr().value() == leverage.margin_req(),
            r.risk_view().spec_contract() == contract_spec,
            r.market_view().ts() == 0,
            r.book_view().bids_view().len() == 0,
            r.book_view().asks_view().len() == 0,
            r.book_view().max_resting() == max_orders,
    {
        let accounting = InMemoryTransactionAccounting::new(starting_balance);
        Exchange {
            accounting,
            position: PositionInner::flat(),
            direction: 1,
            market: MarketState::new(0),
            risk: IsolatedMarginRiskEngine::new(contract_spec),
            init_margin_req: leverage.init_margin_req(),
            fee_maker,
            fee_taker,
            book: OrderBook::new(max_orders),
            starting_balance: Ghost(starting_balance.value()),
        }
    }

    /// The ledger.
    pub fn accounting(&self) -> (r: &InMemoryTransactionAccounting<Q::PairedCurrency>)
        ensures
            *r == self.ledger(),
    {
        &self.accounting
    }

    /// The position.
    pub fn position(&self) -> (r: &PositionInner<Q>)
        ensures
            *r == self.pos(),
    {
        &self.position
    }

    /// The side of the position: `1` long, `-1` short.
    pub fn direction(&self) -> (r: i8)
        ensures
            r == self.side(),
    {
        self.direction
    }

    /// The user's resting limit orders.
    pub fn order_book(&self) -> (r: &OrderBook)
        ensures
            *r == self.book_view(),
    {
        &self.book
    }

    /// The market state.
    pub fn market_state(&self) -> (r: &MarketState)
        ensures
            *r == self.market_view(),
    {
        &self.market
    }

    /// The fee at `fee_rate` of `qty` at `price`, if it fits.
    fn fee_of(qty: i64, price: QuoteCurrency, fee_rate: Decimal) -> (r: Result<
        Q::PairedCurrency,
        Error,
    >)
        requires
            price.value() > 0,
        ensures
            r matches Ok(f) ==> f.value() == scaled_by(
                convert_value(Q::converts_by_multiplication(), qty as int, price.value()),
                fee_rate.value(),
            ),
            r matches Err(e) ==> e == Error::Overflow,
            r is Ok <==> Self::fee_fits(qty as int, price.value(), fee_rate),
    {
        let value = convert_wide(converts_by_multiplication::<Q>(), qty, price.mantissa());
        if !fits_wide(value) {
            return Err(Error::Overflow);
        }
        let fee = scaled_wide(value as i64, fee_rate.mantissa());
        if !fits_wide(fee) {
            return Err(Error::Overflow);
        }
        Ok(Q::PairedCurrency::from_mantissa(fee as i64))
    }

    /// Whether the position is open and its margin no longer covers the
    /// maintenance margin at the mid price of `market`.
    pub open spec fn breached(self, market: MarketState) -> bool {
        &&& self.pos().qty() > 0
        &&& equity(self.pos(), self.ledger().margin_balance(), market.mid(), self.side())
            < maintenance_of(
            self.pos(),
            market.mid(),
            self.risk_view().spec_contract().maintenance_margin.value(),
        )
    }

    /// Whether liquidating the whole position at the mid price of `m`, with
    /// the taker fee, can be carried out.
    pub open spec fn liquidation_ok(self, m: MarketState) -> bool {
        let q = self.pos().qty();
        &&& self.risk_view().maintenance_fits(
            self.pos(),
            self.ledger().margin_balance(),
            m.mid(),
            self.side(),
        )
        &&& Self::fee_fits(q, m.mid(), self.taker())
        &&& self.pos().can_decrease(
            self.ledger(),
            q,
            m.mid(),
            self.imr(),
            self.side(),
            Self::fee_value(q, m.mid(), self.taker()),
        )
    }

    /// Whether the maintenance step fails on market `m`: the open position
    /// cannot be valued, or it is breached and cannot be liquidated.
    pub open spec fn maintenance_fails(self, m: MarketState) -> bool {
        &&& self.pos().qty() > 0
        &&& m.has_quote()
        &&& !self.risk_view().maintenance_fits(
            self.pos(),
            self.ledger().margin_balance(),
            m.mid(),
            self.side(),
        ) || (self.breached(m) && !self.liquidation_ok(m))
    }

    /// What a market event owes after the market moved: `Ok(false)` and no
    /// change when there is nothing to value or the maintenance margin
    /// holds, `Ok(true)` and a flat position when the position is breached
    /// and can be liquidated, and an error with no change otherwise.
    pub open spec fn maintained(old: Self, new: Self, r: Result<bool, Error>) -> bool {
        let m = new.market_view();
        let open = old.pos().qty() > 0 && m.has_quote();
        let q = old.pos().qty();
        let fee = Self::fee_value(q, m.mid(), old.taker());
        &&& !open || (old.risk_view().maintenance_fits(
            old.pos(),
            old.ledger().margin_balance(),
            m.mid(),
            old.side(),
        ) && !old.breached(m)) ==> r == Ok::<bool, Error>(false) && new.pos() == old.pos()
            && new.ledger() == old.ledger()
        &&& open && old.breached(m) && old.liquidation_ok(m) ==> {
            &&& r == Ok::<bool, Error>(true)
            &&& new.pos().qty() == 0
            &&& new.ledger().margin_balance() == 0
            &&& new.ledger().wallet_balance() == old.ledger().wallet_balance()
                + old.ledger().margin_balance() + old.pos().realized(q, m.mid(), old.side()) - (
            old.pos().fees() + fee)
        }
        &&& old.maintenance_fails(m) ==> (r == Err::<bool, Error>(Error::Overflow) || r == Err::<
            bool,
            Error,
        >(Error::InsufficientBalance)) && new.pos() == old.pos() && new.ledger() == old.ledger()
    }

    /// Checks the maintenance margin at the current mid price and, when it
    /// is breached, liquidates the whole position there with the taker fee.
    fn maintain(&mut self) -> (r: Result<bool, Error>)
        requires
            old(self).wf(),
        ensures
            final(self).maker() == old(self).maker(),
            final(self).taker() == old(self).taker(),
            final(self).wf(),
            final(self).starting() == old(self).starting(),
            final(self).imr() == old(self).imr(),
            final(self).risk_view() == old(self).risk_view(),
            final(self).market_view() == old(self).market_view(),
            final(self).book_view() == old(self).book_view(),
            Self::maintained(*old(self), *final(self), r),
    {
        if self.market.bid().mantissa() <= 0 {
            return Ok(false);
        }
        let quantity = self.position.quantity();
        let q = quantity.mantissa();
        if q == 0 {
            return Ok(false);
        }
        if !self.risk.check_maintenance_fits(
            &self.market,
            &self.position,
            self.direction,
            &self.accounting,
        ) {
            return Err(Error::Overflow);
        }
        match self.risk.check_maintenance_margin(
            &self.market,
            &self.position,
            self.direction,
            &self.accounting,
        ) {
            Ok(()) => {
                return Ok(false);
            },
            Err(_) => {},
        }
        let mark = self.market.mid_price();
        let fee = match Self::fee_of(q, mark, self.fee_taker) {
            Ok(f) => f,
            Err(e) => {
                return Err(e);
            },
        };
        match self.position.check_decrease(
            &self.accounting,
            quantity,
            mark,
            self.init_margin_req,
            self.direction,
            fee,
        ) {
            Ok(()) => {},
            Err(e) => {
                return Err(e);
            },
        }
        self.position.decrease_contracts(
            quantity,
            mark,
            &mut self.accounting,
            self.init_margin_req,
            self.direction,
            fee,
        );
        Ok(true)
    }

    /// Applies a quote update, then checks the maintenance margin and, when
    /// it is breached, liquidates the whole position at the mid price with
    /// the taker fee. Returns whether it liquidated.
    pub fn update_quote(&mut self, bid: QuoteCurrency, ask: QuoteCurrency, timestamp: i64) -> (r:
        Result<bool, Error>)
        requires
            old(self).wf(),
        ensures
            final(self).wf(),
            final(self).starting() == old(self).starting(),
            final(self).imr() == old(self).imr(),
            final(self).risk_view() == old(self).risk_view(),
            old(self).market_view().quote_outcome(bid.value(), ask.value(), timestamp as int) matches Err(e) ==> r
                == Err::<bool, Error>(e) && *final(self) == *old(self),
            old(self).market_view().quote_outcome(bid.value(), ask.value(), timestamp as int) is Ok
                ==> {
                &&& final(self).market_view().bid_value() == bid.value()
                &&& final(self).market_view().ask_value() == ask.value()
                &&& final(self).market_view().ts() == timestamp
                &&& Self::maintained(*old(self), *final(self), r)
            },
    {
        match self.market.update_quote(bid, ask, timestamp) {
            Err(e) => {
                return Err(e);
            },
            Ok(()) => {},
        }
        self.maintain()
    }

    /// Fills a market order of `qty` contracts at the touch (the ask for a
    /// buy, the bid for a sell) with the taker fee. A fill against the
    /// position first reduces it, and what exceeds the position opens the
    /// other side. When the wallet cannot cover the opening part, the
    /// reducing part stays done and the error is returned.
    pub fn submit_market_order(&mut self, side: Side, qty: Q) -> (r: Result<(), Error>)
        requires
            old(self).wf(),
        ensures
            final(self).wf(),
            final(self).starting() == old(self).starting(),
            final(self).imr() == old(self).imr(),
            final(self).risk_view() == old(self).risk_view(),
            final(self).market_view() == old(self).market_view(),
            final(self).book_view() == old(self).book_view(),
            qty.value() <= 0 ==> r == Err::<(), Error>(Error::InvalidQuantity) && *final(self)
                == *old(self),
            qty.value() > 0 && !old(self).market_view().has_quote() ==> r == Err::<(), Error>(
                Error::InvalidPrice,
            ) && *final(self) == *old(self),
            r is Ok ==> final(self).signed_position() == old(self).signed_position() + (
            match side {
                Side::Buy => qty.value(),
                Side::Sell => -qty.value(),
            }),
            r matches Err(e) ==> e == Error::InvalidQuantity || e == Error::InvalidPrice || e
                == Error::Overflow || e == Error::InsufficientBalance,
            qty.value() > 0 && old(self).market_view().has_quote() && r is Err ==> exists|qr: int|
                0 < qr <= qty.value() && #[trigger] final(self).fill_blocked(
                    side,
                    qr,
                    touch(old(self).market_view(), side),
                    old(self).taker(),
                ),
    {
        let q = qty.mantissa();
        if q <= 0 {
            return Err(Error::InvalidQuantity);
        }
        if self.market.bid().mantissa() <= 0 {
            return Err(Error::InvalidPrice);
        }
        let price = match side {
            Side::Buy => self.market.ask(),
            Side::Sell => self.market.bid(),
        };
        let r = self.apply_fill(side, q, price, self.fee_taker);
        proof {
            if r is Err {
                let qr = choose|qr: int|
                    0 < qr <= q && #[trigger] self.fill_blocked(
                        side,
                        qr,
                        price.value(),
                        old(self).taker(),
                    );
                assert(price.value() == touch(old(self).market_view(), side));
                assert(self.fill_blocked(side, qr, touch(old(self).market_view(), side), old(self).taker()));
            }
        }
        r
    }

    /// Applies a fill of `q` contracts on `side` at `price` with the fee
    /// rate `fee_rate`: the part against the position reduces it, the rest
    /// opens or increases it.
    fn apply_fill(&mut self, side: Side, q: i64, price: QuoteCurrency, fee_rate: Decimal) -> (r:
        Result<(), Error>)
        requires
            old(self).wf(),
            q > 0,
            price.value() > 0,
        ensures
            final(self).maker() == old(self).maker(),
            final(self).taker() == old(self).taker(),
            final(self).wf(),
            final(self).starting() == old(self).starting(),
            final(self).imr() == old(self).imr(),
            final(self).risk_view() == old(self).risk_view(),
            final(self).market_view() == old(self).market_view(),
            final(self).book_view() == old(self).book_view(),
            r is Ok ==> final(self).signed_position() == old(self).signed_position() + (
            match side {
                Side::Buy => q as int,
                Side::Sell => -q,
            }),
            r matches Err(e) ==> e == Error::Overflow || e == Error::InsufficientBalance,
            r is Err ==> exists|qr: int|
                0 < qr <= q && #[trigger] final(self).fill_blocked(side, qr, price.value(), fee_rate),
    {
        let held = self.position.quantity().mantissa();
        let signed_held = if self.direction == 1 {
            held
        } else {
            -held
        };
        let fill = match side {
            Side::Buy => q,
            Side::Sell => -q,
        };
        let (reduce, open) = split_fill(signed_held, fill);
        proof {
            assert(self.signed_position() == signed_held);
            assert(signed_fill(side, q as int) == fill);
        }
        if reduce > 0 {
            let fee = match Self::fee_of(reduce, price, fee_rate) {
                Ok(f) => f,
                Err(e) => {
                    proof {
                        assert(self.fill_blocked(side, q as int, price.value(), fee_rate));
                    }
                    return Err(e);
                },
            };
            let reduce_qty = Q::from_mantissa(reduce);
            match self.position.check_decrease(
                &self.accounting,
                reduce_qty,
                price,
                self.init_margin_req,
                self.direction,
                fee,
            ) {
                Ok(()) => {},
                Err(e) => {
                    proof {
                        assert(self.fill_blocked(side, q as int, price.value(), fee_rate));
                    }
                    return Err(e);
                },
            }
            self.position.decrease_contracts(
                reduce_qty,
                price,
                &mut self.accounting,
                self.init_margin_req,
                self.direction,
                fee,
            );
        }
        if open != 0 {
            let open_abs = if open < 0 {
                -open
            } else {
                open
            };
            let fee = match Self::fee_of(open_abs, price, fee_rate) {
                Ok(f) => f,
                Err(e) => {
                    proof {
                        let w = if reduce > 0 {
                            open_abs as int
                        } else {
                            q as int
                        };
                        assert(self.signed_position() == 0 || reduce == 0);
                        assert(self.fill_blocked(side, w, price.value(), fee_rate));
                    }
                    return Err(e);
                },
            };
            let open_qty = Q::from_mantissa(open_abs);
            match self.position.check_increase(
                &self.accounting,
                open_qty,
                price,
                self.init_margin_req,
                fee,
            ) {
                Ok(()) => {},
                Err(e) => {
                    proof {
                        let w = if reduce > 0 {
                            open_abs as int
                        } else {
                            q as int
                        };
                        assert(self.signed_position() == 0 || reduce == 0);
                        assert(self.fill_blocked(side, w, price.value(), fee_rate));
                    }
                    return Err(e);
                },
            }
            self.position.increase_contracts(
                open_qty,
                price,
                &mut self.accounting,
                self.init_margin_req,
                fee,
            );
            self.direction = if open > 0 {
                1
            } else {
                -1
            };
        }
        Ok(())
    }

    /// Submits a limit order. One that reaches the touch (a buy at or above
    /// the ask, a sell at or below the bid) is a taker and fills at once like
    /// a market order; any other rests in the book and gets its id. Resting
    /// orders of the user that the new one meets trade against it, which
    /// leaves the position as it is.
    pub fn submit_limit_order(&mut self, side: Side, price: QuoteCurrency, qty: Q) -> (r: Result<
        Option<u64>,
        Error,
    >)
        requires
            old(self).wf(),
        ensures
            final(self).wf(),
            final(self).starting() == old(self).starting(),
            final(self).market_view() == old(self).market_view(),
            qty.value() <= 0 ==> r == Err::<Option<u64>, Error>(Error::InvalidQuantity)
                && *final(self) == *old(self),
            qty.value() > 0 && price.value() <= 0 ==> r == Err::<Option<u64>, Error>(
                Error::InvalidPrice,
            ) && *final(self) == *old(self),
            r matches Ok(Some(id)) ==> id == old(self).book_view().next_order_id()
                && final(self).book_view().next_order_id() == id + 1 && final(self).pos() == old(
                self,
            ).pos() && final(self).ledger() == old(self).ledger(),
            r == Ok::<Option<u64>, Error>(None) ==> final(self).signed_position()
                == old(self).signed_position() + (match side {
                Side::Buy => qty.value(),
                Side::Sell => -qty.value(),
            }),
            qty.value() > 0 && price.value() > 0 && crosses_touch(
                old(self).market_view(),
                side,
                price.value(),
            ) ==> {
                &&& r is Ok ==> r == Ok::<Option<u64>, Error>(None)
                &&& final(self).book_view() == old(self).book_view()
                &&& r is Err ==> exists|qr: int|
                    0 < qr <= qty.value() && #[trigger] final(self).fill_blocked(
                        side,
                        qr,
                        touch(old(self).market_view(), side),
                        old(self).taker(),
                    )
            },
            qty.value() > 0 && price.value() > 0 && !crosses_touch(
                old(self).market_view(),
                side,
                price.value(),
            ) ==> {
                let book = old(self).book_view();
                let opp = opposite(side);
                &&& final(self).pos() == old(self).pos()
                &&& final(self).ledger() == old(self).ledger()
                &&& r is Err <==> book.submit_error(side, price.value(), qty.value()) is Some
                    || book.next_order_id() == u64::MAX
                &&& r is Err ==> *final(self) == *old(self)
                &&& r is Ok ==> r == Ok::<Option<u64>, Error>(Some(book.next_order_id() as u64))
                &&& r is Ok && (book.side_view(opp).len() == 0 || !touches(
                    opp,
                    book.side_view(opp)[0].price as int,
                    price.value(),
                )) ==> exists|k: int|
                    0 <= k <= book.side_view(side).len() && final(self).book_view().side_view(side)
                        == #[trigger] book.side_view(side).insert(
                        k,
                        LimitOrder {
                            id: book.next_order_id() as u64,
                            side,
                            price: price.value() as i64,
                            quantity: qty.value() as i64,
                        },
                    )
            },
    {
        let q = qty.mantissa();
        if q <= 0 {
            return Err(Error::InvalidQuantity);
        }
        let p = price.mantissa();
        if p <= 0 {
            return Err(Error::InvalidPrice);
        }
        let bid = self.market.bid().mantissa();
        let ask = self.market.ask().mantissa();
        let taker = bid > 0 && match side {
            Side::Buy => p >= ask,
            Side::Sell => p <= bid,
        };
        if taker {
            return match self.submit_market_order(side, qty) {
                Ok(()) => Ok(None),
                Err(e) => Err(e),
            };
        }
        if self.book.next_id() == u64::MAX {
            return Err(Error::Overflow);
        }
        match self.book.submit_limit_order(side, p, q) {
            Ok((id, fills)) => {
                proof {
                    if fills@.len() > 0 {
                        assert(fills@[0].order_id == old(self).book_view().side_view(opposite(side))[0].id);
                    }
                }
                Ok(Some(id))
            },
            Err(e) => Err(e),
        }
    }

    /// Cancels the resting order with `id`.
    pub fn cancel_order(&mut self, id: u64) -> (r: Result<(), Error>)
        requires
            old(self).wf(),
        ensures
            final(self).wf(),
            final(self).starting() == old(self).starting(),
            final(self).pos() == old(self).pos(),
            final(self).ledger() == old(self).ledger(),
            r is Err <==> !has_order(old(self).book_view().bids_view(), id) && !has_order(
                old(self).book_view().asks_view(),
                id,
            ),
            r is Err ==> *final(self) == *old(self),
            ({
                let ob = old(self).book_view();
                let nb = final(self).book_view();
                r is Ok ==> (exists|k: int|
                    0 <= k < ob.bids_view().len() && ob.bids_view()[k].id == id && nb.bids_view()
                        == #[trigger] ob.bids_view().remove(k) && nb.asks_view() == ob.asks_view())
                    || (exists|k: int|
                    0 <= k < ob.asks_view().len() && ob.asks_view()[k].id == id && nb.asks_view()
                        == #[trigger] ob.asks_view().remove(k) && nb.bids_view() == ob.bids_view())
            }),
    {
        match self.book.cancel_order(id) {
            Ok(_) => Ok(()),
            Err(e) => Err(e),
        }
    }

    /// Applies a trade print of `size` at `price`: the market records it,
    /// the maintenance margin is checked (and the position liquidated when
    /// breached), then the resting orders the print reaches fill, best first,
    /// at their own prices with the maker fee. Returns whether it liquidated
    /// and the fills. The market keeps the print whatever follows. When a
    /// fill cannot be carried (its margin or fee does not fit the ledger),
    /// an error is returned, the fills before it stay applied, and the orders
    /// the print reached are off the book.
    pub fn update_trade(&mut self, price: QuoteCurrency, size: i64, timestamp: i64) -> (r: Result<
        (bool, Vec<Fill>),
        Error,
    >)
        requires
            old(self).wf(),
        ensures
            final(self).wf(),
            final(self).starting() == old(self).starting(),
            old(self).market_view().trade_outcome(price.value(), size as int, timestamp as int) matches Err(
                e,
            ) ==> r == Err::<(bool, Vec<Fill>), Error>(e) && *final(self) == *old(self),
            old(self).market_view().trade_outcome(price.value(), size as int, timestamp as int) is Ok
                ==> {
                &&& final(self).market_view().last_trade_price_value() == price.value()
                &&& final(self).market_view().last_trade_size_value() == size
                &&& final(self).market_view().ts() == timestamp
                &&& final(self).market_view().bid_value() == old(self).market_view().bid_value()
                &&& final(self).market_view().ask_value() == old(self).market_view().ask_value()
            },
            ({
                let side = trade_side(old(self).book_view(), price.value());
                let touched = old(self).book_view().side_view(side);
                &&& r matches Ok((_, fills)) ==> fills_prefix(side, touched, fills@, price.value())
                &&& old(self).market_view().trade_outcome(
                    price.value(),
                    size as int,
                    timestamp as int,
                ) is Ok && r is Err ==> {
                    &&& r == Err::<(bool, Vec<Fill>), Error>(Error::Overflow) || r == Err::<
                        (bool, Vec<Fill>),
                        Error,
                    >(Error::InsufficientBalance)
                    &&& old(self).maintenance_fails(final(self).market_view()) || exists|
                        k: int,
                        qr: int,
                    |
                        0 <= k < touched.len() && touches(side, touched[k].price as int, price.value())
                            && 0 < qr <= touched[k].quantity && #[trigger] final(self).fill_blocked(
                            side,
                            qr,
                            touched[k].price as int,
                            old(self).maker(),
                        )
                }
            }),
    {
        match self.market.update_trade(price, size, timestamp) {
            Err(e) => {
                return Err(e);
            },
            Ok(()) => {},
        }
        let liquidated = match self.maintain() {
            Ok(l) => l,
            Err(e) => {
                return Err(e);
            },
        };
        let p = price.mantissa();
        let hits_bids = self.book.bids().len() > 0 && self.book.bids()[0].price >= p;
        let side = if hits_bids {
            Side::Buy
        } else {
            Side::Sell
        };
        let ghost old_side = self.book.side_view(side);
        let ghost next_id = self.book.next_order_id();
        let fills = match self.book.fill_with_trade(p, size) {
            Ok(f) => f,
            Err(e) => {
                return Err(e);
            },
        };
        let mut i: usize = 0;
        while i < fills.len()
            invariant
                self.wf(),
                self.starting() == old(self).starting(),
                self.market_view().last_trade_price_value() == price.value(),
                self.market_view().ts() == timestamp,
                well_placed(side, old_side, next_id),
                fills_prefix(side, old_side, fills@, p as int),
                old(self).market_view().trade_outcome(price.value(), size as int, timestamp as int) is Ok,
                old_side == old(self).book_view().side_view(side),
                side == trade_side(old(self).book_view(), price.value()),
                p == price.value(),
                self.maker() == old(self).maker(),
                self.market_view().last_trade_size_value() == size,
                self.market_view().bid_value() == old(self).market_view().bid_value(),
                self.market_view().ask_value() == old(self).market_view().ask_value(),
                i <= fills@.len(),
            decreases fills@.len() - i,
        {
            let f = fills[i];
            proof {
                assert(fills@[i as int].price == old_side[i as int].price);
                assert(old_side[i as int].price > 0);
            }
            let fill_price = QuoteCurrency::from_mantissa(f.price);
            match self.apply_fill(side, f.quantity, fill_price, self.fee_maker) {
                Ok(()) => {},
                Err(e) => {
                    proof {
                        let qr = choose|qr: int|
                            0 < qr <= f.quantity && #[trigger] self.fill_blocked(
                                side,
                                qr,
                                fill_price.value(),
                                old(self).maker(),
                            );
                        let k = i as int;
                        assert(0 < qr <= old_side[k].quantity);
                        assert(touches(side, old_side[k].price as int, price.value()));
                        assert(self.fill_blocked(side, qr, old_side[k].price as int, old(self).maker()));
                    }
                    return Err(e);
                },
            }
            i = i + 1;
        }
        Ok((liquidated, fills))
    }
}

} // verus!

verus! {

/// What every exchange state satisfies, and every event keeps: the four
/// ledger accounts sum to the starting endowment, the wallet and the
/// position margin are never negative, and a flat position carries neither
/// fees nor locked margin.
pub proof fn lemma_exchange_invariants<Q: Currency>(ex: Exchange<Q>)
    requires
        ex.wf(),
    ensures
        ex.ledger().balance(USER_WALLET_ACCOUNT as int) + ex.ledger().balance(
            USER_POSITION_MARGIN_ACCOUNT as int,
        ) + ex.ledger().balance(EXCHANGE_FEE_ACCOUNT as int) + ex.ledger().balance(
            TREASURY_ACCOUNT as int,
        ) == ex.starting(),
        ex.ledger().wallet_balance() >= 0,
        ex.ledger().margin_balance() >= 0,
        ex.pos().qty() == 0 ==> ex.pos().fees() == 0 && ex.ledger().margin_balance() == 0,
{
}

} // verus!
