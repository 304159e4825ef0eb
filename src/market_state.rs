//! The market as the exchange last saw it: top of book, last trade, time.

use crate::currency::{MarginCurrency, QuoteCurrency};
use crate::decimal::{div_round_half_even, round_half_even};
use crate::errors::Error;
use vstd::prelude::*;

verus! {

/// Current bid, ask, last trade and the timestamp of the last event.
pub struct MarketState {
    bid: QuoteCurrency,
    ask: QuoteCurrency,
    last_trade_price: QuoteCurrency,
    last_trade_size: i64,
    timestamp: i64,
}

impl MarketState {
    #[verifier::type_invariant]
    spec fn inv(self) -> bool {
        &&& 0 <= self.bid.value() <= self.ask.value()
        &&& self.bid.value() == 0 <==> self.ask.value() == 0
    }

    /// The best bid, as a scaled mantissa; zero before the first quote.
    pub closed spec fn bid_value(self) -> int {
        self.bid.value()
    }

    /// The best ask, as a scaled mantissa; zero before the first quote.
    pub closed spec fn ask_value(self) -> int {
        self.ask.value()
    }

    /// The price of the last trade print.
    pub closed spec fn last_trade_price_value(self) -> int {
        self.last_trade_price.value()
    }

    /// The size of the last trade print.
    pub closed spec fn last_trade_size_value(self) -> int {
        self.last_trade_size as int
    }

    /// The timestamp of the last accepted event.
    pub closed spec fn ts(self) -> int {
        self.timestamp as int
    }

    /// Whether a quote has been seen.
    pub open spec fn has_quote(self) -> bool {
        self.bid_value() > 0
    }

    /// The mid price: half the sum of bid and ask, banker's rounding at the
    /// price tick.
    pub open spec fn mid(self) -> int {
        round_half_even(self.bid_value() + self.ask_value(), 2)
    }

    /// What `update_quote` returns for `(bid, ask, ts)`.
    pub open spec fn quote_outcome(self, bid: int, ask: int, ts: int) -> Result<(), Error> {
        if bid <= 0 || ask <= 0 {
            Err(Error::InvalidPrice)
        } else if bid > ask {
            Err(Error::CrossedBook)
        } else if ts < self.ts() {
            Err(Error::OutOfOrderTimestamp)
        } else {
            Ok(())
        }
    }

    /// What `update_trade` returns for `(price, size, ts)`.
    pub open spec fn trade_outcome(self, price: int, size: int, ts: int) -> Result<(), Error> {
        if price <= 0 {
            Err(Error::InvalidPrice)
        } else if size <= 0 {
            Err(Error::InvalidQuantity)
        } else if ts < self.ts() {
            Err(Error::OutOfOrderTimestamp)
        } else {
            Ok(())
        }
    }

    /// A market that has seen no event, at time `timestamp`.
    pub fn new(timestamp: i64) -> (r: Self)
        ensures
            r.bid_value() == 0,
            r.ask_value() == 0,
            r.last_trade_price_value() == 0,
            r.last_trade_size_value() == 0,
            r.ts() == timestamp,
    {
        MarketState {
            bid: QuoteCurrency::new(0, 0),
            ask: QuoteCurrency::new(0, 0),
            last_trade_price: QuoteCurrency::new(0, 0),
            last_trade_size: 0,
            timestamp,
        }
    }

    /// Applies a quote update; an invalid one changes nothing.
    pub fn update_quote(&mut self, bid: QuoteCurrency, ask: QuoteCurrency, timestamp: i64) -> (r:
        Result<(), Error>)
        ensures
            r == old(self).quote_outcome(bid.value(), ask.value(), timestamp as int),
            r is Ok ==> final(self).bid_value() == bid.value() && final(self).ask_value()
                == ask.value() && final(self).ts() == timestamp
                && final(self).last_trade_price_value() == old(self).last_trade_price_value()
                && final(self).last_trade_size_value() == old(self).last_trade_size_value(),
            r is Err ==> *final(self) == *old(self),
            final(self).ts() >= old(self).ts(),
    {
        let b = bid.mantissa();
        let a = ask.mantissa();
        if b <= 0 || a <= 0 {
            Err(Error::InvalidPrice)
        } else if b > a {
            Err(Error::CrossedBook)
        } else if timestamp < self.timestamp {
            Err(Error::OutOfOrderTimestamp)
        } else {
            *self = MarketState {
                bid,
                ask,
                last_trade_price: self.last_trade_price,
                last_trade_size: self.last_trade_size,
                timestamp,
            };
            Ok(())
        }
    }

    /// Applies a trade print of `size` contracts at `price`; an invalid one
    /// changes nothing.
    pub fn update_trade(&mut self, price: QuoteCurrency, size: i64, timestamp: i64) -> (r: Result<
        (),
        Error,
    >)
        ensures
            r == old(self).trade_outcome(price.value(), size as int, timestamp as int),
            r is Ok ==> final(self).last_trade_price_value() == price.value()
                && final(self).last_trade_size_value() == size && final(self).ts() == timestamp
                && final(self).bid_value() == old(self).bid_value() && final(self).ask_value()
                == old(self).ask_value(),
            r is Err ==> *final(self) == *old(self),
            final(self).ts() >= old(self).ts(),
    {
        proof {
            use_type_invariant(&*self);
        }
        if price.mantissa() <= 0 {
            Err(Error::InvalidPrice)
        } else if size <= 0 {
            Err(Error::InvalidQuantity)
        } else if timestamp < self.timestamp {
            Err(Error::OutOfOrderTimestamp)
        } else {
            self.last_trade_price = price;
            self.last_trade_size = size;
            self.timestamp = timestamp;
            Ok(())
        }
    }

    /// The best bid.
    pub fn bid(&self) -> (r: QuoteCurrency)
        ensures
            r.value() == self.bid_value(),
            0 <= self.bid_value() <= self.ask_value(),
            self.bid_value() == 0 <==> self.ask_value() == 0,
    {
        proof {
            use_type_invariant(self);
        }
        self.bid
    }

    /// The best ask.
    pub fn ask(&self) -> (r: QuoteCurrency)
        ensures
            r.value() == self.ask_value(),
            0 <= self.bid_value() <= self.ask_value(),
    {
        proof {
            use_type_invariant(self);
        }
        self.ask
    }

    /// The price of the last trade print.
    pub fn last_trade_price(&self) -> (r: QuoteCurrency)
        ensures
            r.value() == self.last_trade_price_value(),
    {
        self.last_trade_price
    }

    /// The size of the last trade print.
    pub fn last_trade_size(&self) -> (r: i64)
        ensures
            r == self.last_trade_size_value(),
    {
        self.last_trade_size
    }

    /// The timestamp of the last accepted event.
    pub fn timestamp(&self) -> (r: i64)
        ensures
            r == self.ts(),
    {
        self.timestamp
    }

    /// The mid price, banker's rounding at the price tick; zero before the
    /// first quote, and positive after it.
    pub fn mid_price(&self) -> (r: QuoteCurrency)
        ensures
            r.value() == self.mid(),
            self.has_quote() ==> r.value() > 0,
    {
        proof {
            use_type_invariant(self);
            crate::decimal::lemma_round_half_even_bounds(self.bid_value() + self.ask_value(), 2);
            if self.has_quote() {
                crate::decimal::lemma_round_half_even_pos(self.bid_value() + self.ask_value(), 2);
            }
        }
        let s = (self.bid.mantissa() as i128) + (self.ask.mantissa() as i128);
        let m = div_round_half_even(s, 2);
        QuoteCurrency::from_mantissa(m as i64)
    }
}

} // verus!
