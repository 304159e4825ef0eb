//! Resting limit orders in price-time priority, and the greedy matching of
//! incoming orders and trade prints against them.

use crate::errors::Error;
use vstd::prelude::*;

verus! {

/// The side of an order.
#[derive(Debug, Clone, Copy, PartialEq, Eq, Structural)]
pub enum Side {
    /// A bid.
    Buy,
    /// An offer.
    Sell,
}

/// A resting limit order; price and quantity are scaled mantissas.
#[derive(Debug, Clone, Copy, PartialEq, Eq, Structural)]
pub struct LimitOrder {
    /// Assigned on admission, increasing.
    pub id: u64,
    /// The side of the book the order rests on.
    pub side: Side,
    /// The limit price.
    pub price: i64,
    /// The quantity still open.
    pub quantity: i64,
}

/// The fill of a resting order.
#[derive(Debug, Clone, Copy, PartialEq, Eq, Structural)]
pub struct Fill {
    /// The id of the resting order that was filled.
    pub order_id: u64,
    /// The resting order's price, at which the fill happens.
    pub price: i64,
    /// The filled quantity.
    pub quantity: i64,
}

/// Whether `a` has priority over `b` on the `side` of the book: a better
/// price, or the same price and an earlier id.
pub open spec fn before(side: Side, a: LimitOrder, b: LimitOrder) -> bool {
    match side {
        Side::Buy => a.price > b.price || (a.price == b.price && a.id < b.id),
        Side::Sell => a.price < b.price || (a.price == b.price && a.id < b.id),
    }
}

/// Price `p` is no better than price `q` on `side`.
pub open spec fn no_better(side: Side, p: int, q: int) -> bool {
    match side {
        Side::Buy => p <= q,
        Side::Sell => p >= q,
    }
}

/// An order at `limit` reaches a resting order of `side` at `resting_price`.
pub open spec fn touches(side: Side, resting_price: int, limit: int) -> bool {
    match side {
        Side::Buy => resting_price >= limit,
        Side::Sell => resting_price <= limit,
    }
}

/// The orders are in priority order.
pub open spec fn sorted(side: Side, s: Seq<LimitOrder>) -> bool {
    forall|i: int, j: int| 0 <= i < j < s.len() ==> #[trigger] before(side, s[i], s[j])
}

/// Every order rests on `side`, has a positive price and quantity, and an
/// id below `next_id`.
pub open spec fn well_placed(side: Side, s: Seq<LimitOrder>, next_id: int) -> bool {
    forall|i: int|
        0 <= i < s.len() ==> {
            &&& (#[trigger] s[i]).side == side
            &&& s[i].price > 0
            &&& s[i].quantity > 0
            &&& s[i].id < next_id
        }
}

/// The summed quantity of `fills`.
pub open spec fn filled_total(fills: Seq<Fill>) -> int
    decreases fills.len(),
{
    if fills.len() == 0 {
        0
    } else {
        filled_total(fills.drop_last()) + fills.last().quantity
    }
}

/// The book side left after `fills` consumed its best orders: every filled
/// order leaves, but the last one may stay with what was not filled.
pub open spec fn after_match(old: Seq<LimitOrder>, fills: Seq<Fill>) -> Seq<LimitOrder> {
    let n = fills.len() as int;
    if n == 0 {
        old
    } else if fills[n - 1].quantity == old[n - 1].quantity {
        old.subrange(n, old.len() as int)
    } else {
        old.subrange(n - 1, old.len() as int).update(
            0,
            LimitOrder { quantity: (old[n - 1].quantity - fills[n - 1].quantity) as i64, ..old[n - 1] },
        )
    }
}

/// The fills that matching at `limit` takes, in order, from the best orders
/// of `old`, a book side of `side`: each at its order's price, each filling
/// its order completely but the last.
pub open spec fn fills_prefix(side: Side, old: Seq<LimitOrder>, fills: Seq<Fill>, limit: int) -> bool {
    &&& fills.len() <= old.len()
    &&& forall|k: int|
        0 <= k < fills.len() ==> {
            &&& (#[trigger] fills[k]).order_id == old[k].id
            &&& fills[k].price == old[k].price
            &&& touches(side, old[k].price as int, limit)
            &&& 0 < fills[k].quantity <= old[k].quantity
            &&& k < fills.len() - 1 ==> fills[k].quantity == old[k].quantity
        }
}

/// A subrange of a sorted side is sorted.
proof fn lemma_sorted_subrange(side: Side, s: Seq<LimitOrder>, start: int)
    requires
        sorted(side, s),
        0 <= start <= s.len(),
    ensures
        sorted(side, s.subrange(start, s.len() as int)),
{
    let t = s.subrange(start, s.len() as int);
    assert forall|i: int, j: int| 0 <= i < j < t.len() implies #[trigger] before(side, t[i], t[j]) by {
        assert(before(side, s[i + start], s[j + start]));
    }
}

/// In a sorted side no order has a better price than the first.
proof fn lemma_first_is_best(side: Side, s: Seq<LimitOrder>, i: int)
    requires
        sorted(side, s),
        0 <= i < s.len(),
    ensures
        no_better(side, s[i].price as int, s[0].price as int),
{
    if i > 0 {
        assert(before(side, s[0], s[i]));
    }
}

/// Computes `touches(side, resting_price, limit)`.
fn reaches(side: Side, resting_price: i64, limit: i64) -> (r: bool)
    ensures
        r == touches(side, resting_price as int, limit as int),
{
    match side {
        Side::Buy => resting_price >= limit,
        Side::Sell => resting_price <= limit,
    }
}

/// Takes the orders of `book` (a side of `side`) that an order at `limit`
/// of `quantity` reaches, best first, and returns their fills with the
/// quantity left over.
fn take_crossing(
    book: &mut Vec<LimitOrder>,
    side: Side,
    limit: i64,
    quantity: i64,
    next_id: u64,
) -> (r: (Vec<Fill>, i64))
    requires
        quantity >= 0,
        sorted(side, old(book)@),
        well_placed(side, old(book)@, next_id as int),
    ensures
        0 <= r.1 <= quantity,
        filled_total(r.0@) + r.1 == quantity,
        fills_prefix(side, old(book)@, r.0@, limit as int),
        final(book)@ == after_match(old(book)@, r.0@),
        r.1 > 0 ==> final(book)@.len() == 0 || !touches(side, final(book)@[0].price as int, limit as int),
        final(book)@.len() > 0 ==> no_better(side, final(book)@[0].price as int, old(book)@[0].price as int),
        sorted(side, final(book)@),
        well_placed(side, final(book)@, next_id as int),
{
    let ghost old_book = book@;
    let mut fills: Vec<Fill> = Vec::new();
    let mut rem: i64 = quantity;
    while rem > 0 && book.len() > 0 && reaches(side, book[0].price, limit) && book[0].quantity <= rem
        invariant
            0 <= rem <= quantity,
            filled_total(fills@) + rem == quantity,
            fills@.len() <= old_book.len(),
            book@ == old_book.subrange(fills@.len() as int, old_book.len() as int),
            forall|k: int|
                0 <= k < fills@.len() ==> {
                    &&& (#[trigger] fills@[k]).order_id == old_book[k].id
                    &&& fills@[k].price == old_book[k].price
                    &&& touches(side, old_book[k].price as int, limit as int)
                    &&& fills@[k].quantity == old_book[k].quantity
                    &&& fills@[k].quantity > 0
                },
            sorted(side, old_book),
            well_placed(side, old_book, next_id as int),
        decreases book@.len(),
    {
        let o = book.remove(0);
        let f = Fill { order_id: o.id, price: o.price, quantity: o.quantity };
        let ghost before_push = fills@;
        fills.push(f);
        proof {
            assert(fills@.drop_last() =~= before_push);
            assert(book@ =~= old_book.subrange(fills@.len() as int, old_book.len() as int));
        }
        rem = rem - o.quantity;
    }
    if rem > 0 && book.len() > 0 && reaches(side, book[0].price, limit) {
        let o = book[0];
        proof {
            assert(o == old_book[fills@.len() as int]);
        }
        let f = Fill { order_id: o.id, price: o.price, quantity: rem };
        let ghost before_push = fills@;
        fills.push(f);
        book.set(0, LimitOrder { quantity: o.quantity - rem, ..o });
        proof {
            assert(fills@.drop_last() =~= before_push);
            assert forall|k: int| 0 <= k < fills@.len() implies {
                &&& (#[trigger] fills@[k]).order_id == old_book[k].id
                &&& fills@[k].price == old_book[k].price
                &&& touches(side, old_book[k].price as int, limit as int)
                &&& 0 < fills@[k].quantity <= old_book[k].quantity
                &&& k < fills@.len() - 1 ==> fills@[k].quantity == old_book[k].quantity
            } by {
                if k < fills@.len() - 1 {
                    assert(fills@[k] == before_push[k]);
                }
            }
        }
        rem = 0;
    }
    proof {
        let n = fills@.len() as int;
        if n > 0 {
            lemma_sorted_subrange(side, old_book, n - 1);
            lemma_sorted_subrange(side, old_book, n);
        } else {
            lemma_sorted_subrange(side, old_book, 0);
        }
        assert(book@ =~= after_match(old_book, fills@));
        let t = book@;
        assert forall|i: int, j: int| 0 <= i < j < t.len() implies #[trigger] before(side, t[i], t[j]) by {
            let u = old_book.subrange(
                if n > 0 && fills@[n - 1].quantity != old_book[n - 1].quantity {
                    n - 1
                } else {
                    n
                },
                old_book.len() as int,
            );
            assert(before(side, u[i], u[j]));
        }
        if t.len() > 0 {
            let start = if n > 0 && fills@[n - 1].quantity != old_book[n - 1].quantity {
                n - 1
            } else {
                n
            };
            assert(t[0].price == old_book[start].price);
            lemma_first_is_best(side, old_book, start);
        }
        assert forall|i: int| 0 <= i < t.len() implies {
            &&& (#[trigger] t[i]).side == side
            &&& t[i].price > 0
            &&& t[i].quantity > 0
            &&& t[i].id < next_id
        } by {
            let start = if n > 0 && fills@[n - 1].quantity != old_book[n - 1].quantity {
                n - 1
            } else {
                n
            };
            assert(old_book[i + start].side == side);
        }
    }
    (fills, rem)
}

} // verus!

verus! {

/// Computes `no_better(side, p, q)` with the inequality strict: `p` is worse.
fn worse(side: Side, p: i64, q: i64) -> (r: bool)
    ensures
        r == !no_better(side, q as int, p as int),
{
    match side {
        Side::Buy => p < q,
        Side::Sell => p > q,
    }
}

/// Inserts `order`, newer than every order of `book`, behind all orders of
/// its price or better.
fn rest(book: &mut Vec<LimitOrder>, side: Side, order: LimitOrder) -> (k: usize)
    requires
        sorted(side, old(book)@),
        forall|i: int| 0 <= i < old(book)@.len() ==> (#[trigger] old(book)@[i]).id < order.id,
    ensures
        k <= old(book)@.len(),
        final(book)@ == old(book)@.insert(k as int, order),
        sorted(side, final(book)@),
        final(book)@[0] == order || (old(book)@.len() > 0 && final(book)@[0] == old(book)@[0]),
{
    let ghost s = book@;
    let mut k: usize = 0;
    while k < book.len() && !worse(side, book[k].price, order.price)
        invariant
            k <= book@.len(),
            book@ == s,
            forall|i: int| 0 <= i < k ==> before(side, #[trigger] s[i], order),
            forall|i: int| 0 <= i < s.len() ==> (#[trigger] s[i]).id < order.id,
        decreases book@.len() - k,
    {
        k = k + 1;
    }
    proof {
        assert forall|i: int| k <= i < s.len() implies before(side, order, #[trigger] s[i]) by {
            if i > k {
                assert(before(side, s[k as int], s[i]));
            }
        }
    }
    book.insert(k, order);
    proof {
        let t = book@;
        assert forall|i: int, j: int| 0 <= i < j < t.len() implies #[trigger] before(side, t[i], t[j]) by {
            if j < k {
                assert(before(side, s[i], s[j]));
            } else if j == k {
                assert(before(side, s[i], order));
            } else if i < k {
                assert(before(side, s[i], s[j - 1]));
            } else if i == k {
                assert(before(side, order, s[j - 1]));
            } else {
                assert(before(side, s[i - 1], s[j - 1]));
            }
        }
    }
    k
}

/// Two books of resting limit orders, bids best-first by descending price
/// and asks best-first by ascending price, each price level first in, first
/// out.
pub struct OrderBook {
    bids: Vec<LimitOrder>,
    asks: Vec<LimitOrder>,
    next_id: u64,
    max_orders: usize,
}

/// The uncrossed condition: the best bid lies below the best ask.
pub open spec fn uncrossed(bids: Seq<LimitOrder>, asks: Seq<LimitOrder>) -> bool {
    bids.len() > 0 && asks.len() > 0 ==> bids[0].price < asks[0].price
}

impl OrderBook {
    /// The resting bids, best first.
    pub closed spec fn bids_view(self) -> Seq<LimitOrder> {
        self.bids@
    }

    /// The resting asks, best first.
    pub closed spec fn asks_view(self) -> Seq<LimitOrder> {
        self.asks@
    }

    /// The id the next admitted order gets.
    pub closed spec fn next_order_id(self) -> int {
        self.next_id as int
    }

    /// The most orders that may rest on one side.
    pub closed spec fn max_resting(self) -> int {
        self.max_orders as int
    }

    /// The orders resting on `side`.
    pub open spec fn side_view(self, side: Side) -> Seq<LimitOrder> {
        match side {
            Side::Buy => self.bids_view(),
            Side::Sell => self.asks_view(),
        }
    }

    /// Both sides in priority order, well placed, within the bound, and not
    /// crossed.
    pub open spec fn wf(self) -> bool {
        &&& sorted(Side::Buy, self.bids_view())
        &&& sorted(Side::Sell, self.asks_view())
        &&& well_placed(Side::Buy, self.bids_view(), self.next_order_id())
        &&& well_placed(Side::Sell, self.asks_view(), self.next_order_id())
        &&& uncrossed(self.bids_view(), self.asks_view())
        &&& self.bids_view().len() <= self.max_resting()
        &&& self.asks_view().len() <= self.max_resting()
    }

    /// An empty book that lets at most `max_orders` orders rest per side.
    pub fn new(max_orders: usize) -> (r: Self)
        ensures
            r.wf(),
            r.bids_view().len() == 0,
            r.asks_view().len() == 0,
            r.next_order_id() == 0,
            r.max_resting() == max_orders,
    {
        OrderBook { bids: Vec::new(), asks: Vec::new(), next_id: 0, max_orders }
    }

    /// The id the next admitted order gets.
    pub fn next_id(&self) -> (r: u64)
        ensures
            r == self.next_order_id(),
    {
        self.next_id
    }

    /// The resting bids, best first.
    pub fn bids(&self) -> (r: &Vec<LimitOrder>)
        ensures
            r@ == self.bids_view(),
    {
        &self.bids
    }

    /// The resting asks, best first.
    pub fn asks(&self) -> (r: &Vec<LimitOrder>)
        ensures
            r@ == self.asks_view(),
    {
        &self.asks
    }
}

/// The other side of the book.
pub open spec fn opposite(side: Side) -> Side {
    match side {
        Side::Buy => Side::Sell,
        Side::Sell => Side::Buy,
    }
}

} // verus!

verus! {

/// Orders of `s` stay well placed under a larger id bound.
proof fn lemma_well_placed_grow(side: Side, s: Seq<LimitOrder>, a: int, b: int)
    requires
        well_placed(side, s, a),
        a <= b,
    ensures
        well_placed(side, s, b),
{
}

/// Inserting a well-placed order keeps a side well placed.
proof fn lemma_well_placed_insert(
    side: Side,
    s: Seq<LimitOrder>,
    k: int,
    order: LimitOrder,
    next_id: int,
)
    requires
        well_placed(side, s, next_id),
        0 <= k <= s.len(),
        order.side == side,
        order.price > 0,
        order.quantity > 0,
        order.id < next_id,
    ensures
        well_placed(side, s.insert(k, order), next_id),
{
    let t = s.insert(k, order);
    assert forall|i: int| 0 <= i < t.len() implies {
        &&& (#[trigger] t[i]).side == side
        &&& t[i].price > 0
        &&& t[i].quantity > 0
        &&& t[i].id < next_id
    } by {
        if i < k {
            assert(t[i] == s[i]);
        } else if i > k {
            assert(t[i] == s[i - 1]);
        }
    }
}

impl OrderBook {
    /// What `submit_limit_order` refuses, if anything.
    pub open spec fn submit_error(self, side: Side, price: int, quantity: int) -> Option<Error> {
        if price <= 0 {
            Some(Error::InvalidPrice)
        } else if quantity <= 0 {
            Some(Error::InvalidQuantity)
        } else if self.side_view(side).len() >= self.max_resting() {
            Some(Error::MaxActiveOrders)
        } else {
            None
        }
    }

    /// Admits a limit order: it takes, best first and at their prices, the
    /// opposite orders its price reaches, and what is left of it rests on its
    /// own side behind every order of its price or better. Returns the new
    /// order's id and the fills of the resting orders it took.
    pub fn submit_limit_order(&mut self, side: Side, price: i64, quantity: i64) -> (r: Result<
        (u64, Vec<Fill>),
        Error,
    >)
        requires
            old(self).wf(),
            old(self).next_order_id() < u64::MAX,
        ensures
            final(self).wf(),
            final(self).max_resting() == old(self).max_resting(),
            old(self).submit_error(side, price as int, quantity as int) matches Some(e) ==> r
                == Err::<(u64, Vec<Fill>), Error>(e) && *final(self) == *old(self),
            old(self).submit_error(side, price as int, quantity as int) is None ==> (r matches Ok(
                (id, fills),
            ) && {
                let opp = opposite(side);
                let rem = quantity - filled_total(fills@);
                &&& id == old(self).next_order_id()
                &&& final(self).next_order_id() == old(self).next_order_id() + 1
                &&& fills_prefix(opp, old(self).side_view(opp), fills@, price as int)
                &&& 0 <= rem <= quantity
                &&& final(self).side_view(opp) == after_match(old(self).side_view(opp), fills@)
                &&& rem == 0 ==> final(self).side_view(side) == old(self).side_view(side)
                &&& rem > 0 ==> exists|k: int|
                    0 <= k <= old(self).side_view(side).len() && final(self).side_view(side)
                        == #[trigger] old(self).side_view(side).insert(
                        k,
                        LimitOrder { id, side, price, quantity: rem as i64 },
                    )
                &&& rem > 0 ==> final(self).side_view(opp).len() == 0 || !touches(
                    opp,
                    final(self).side_view(opp)[0].price as int,
                    price as int,
                )
            }),
    {
        if price <= 0 {
            return Err(Error::InvalidPrice);
        }
        if quantity <= 0 {
            return Err(Error::InvalidQuantity);
        }
        let own_len = match side {
            Side::Buy => self.bids.len(),
            Side::Sell => self.asks.len(),
        };
        if own_len >= self.max_orders {
            return Err(Error::MaxActiveOrders);
        }
        let id = self.next_id;
        let ghost old_bids = self.bids@;
        let ghost old_asks = self.asks@;
        let (fills, rem) = match side {
            Side::Buy => take_crossing(&mut self.asks, Side::Sell, price, quantity, id),
            Side::Sell => take_crossing(&mut self.bids, Side::Buy, price, quantity, id),
        };
        self.next_id = id + 1;
        proof {
            lemma_well_placed_grow(Side::Buy, self.bids@, id as int, id + 1);
            lemma_well_placed_grow(Side::Sell, self.asks@, id as int, id + 1);
            if self.bids@.len() > 0 {
                lemma_first_is_best(Side::Buy, old_bids, 0);
            }
        }
        if rem > 0 {
            let order = LimitOrder { id, side, price, quantity: rem };
            match side {
                Side::Buy => {
                    let k = rest(&mut self.bids, Side::Buy, order);
                    proof {
                        lemma_well_placed_insert(Side::Buy, old_bids, k as int, order, id + 1);
                    }
                },
                Side::Sell => {
                    let k = rest(&mut self.asks, Side::Sell, order);
                    proof {
                        lemma_well_placed_insert(Side::Sell, old_asks, k as int, order, id + 1);
                    }
                },
            }
        }
        Ok((id, fills))
    }
}

} // verus!

verus! {

/// Whether an order with `id` rests in `s`.
pub open spec fn has_order(s: Seq<LimitOrder>, id: u64) -> bool {
    exists|i: int| 0 <= i < s.len() && (#[trigger] s[i]).id == id
}

/// The index of the order with `id` in `book`, if any.
fn find_order(book: &Vec<LimitOrder>, id: u64) -> (r: Option<usize>)
    ensures
        r matches Some(k) ==> k < book@.len() && book@[k as int].id == id,
        r is None ==> !has_order(book@, id),
{
    let mut i: usize = 0;
    while i < book.len()
        invariant
            i <= book@.len(),
            forall|j: int| 0 <= j < i ==> (#[trigger] book@[j]).id != id,
        decreases book@.len() - i,
    {
        if book[i].id == id {
            return Some(i);
        }
        i = i + 1;
    }
    None
}

/// Removing an order keeps a side sorted and well placed, and its best
/// price no better.
proof fn lemma_remove_keeps_side(side: Side, s: Seq<LimitOrder>, k: int, next_id: int)
    requires
        sorted(side, s),
        well_placed(side, s, next_id),
        0 <= k < s.len(),
    ensures
        sorted(side, s.remove(k)),
        well_placed(side, s.remove(k), next_id),
        s.remove(k).len() > 0 ==> no_better(side, s.remove(k)[0].price as int, s[0].price as int),
{
    let t = s.remove(k);
    assert forall|i: int, j: int| 0 <= i < j < t.len() implies #[trigger] before(side, t[i], t[j]) by {
        let i2 = if i < k {
            i
        } else {
            i + 1
        };
        let j2 = if j < k {
            j
        } else {
            j + 1
        };
        assert(t[i] == s[i2] && t[j] == s[j2]);
        assert(before(side, s[i2], s[j2]));
    }
    assert forall|i: int| 0 <= i < t.len() implies {
        &&& (#[trigger] t[i]).side == side
        &&& t[i].price > 0
        &&& t[i].quantity > 0
        &&& t[i].id < next_id
    } by {
        if i >= k {
            assert(t[i] == s[i + 1]);
        }
    }
    if t.len() > 0 {
        if k == 0 {
            lemma_first_is_best(side, s, 1);
        }
    }
}

impl OrderBook {
    /// Cancels the resting order with `id` and returns it.
    pub fn cancel_order(&mut self, id: u64) -> (r: Result<LimitOrder, Error>)
        requires
            old(self).wf(),
        ensures
            final(self).wf(),
            final(self).next_order_id() == old(self).next_order_id(),
            final(self).max_resting() == old(self).max_resting(),
            r is Err <==> !has_order(old(self).bids_view(), id) && !has_order(
                old(self).asks_view(),
                id,
            ),
            r matches Err(e) ==> e == Error::UnknownOrder && *final(self) == *old(self),
            r matches Ok(o) ==> o.id == id && ((exists|k: int|
                0 <= k < old(self).bids_view().len() && old(self).bids_view()[k] == o
                    && final(self).bids_view() == #[trigger] old(self).bids_view().remove(k)
                    && final(self).asks_view() == old(self).asks_view()) || (exists|k: int|
                0 <= k < old(self).asks_view().len() && old(self).asks_view()[k] == o
                    && final(self).asks_view() == #[trigger] old(self).asks_view().remove(k)
                    && final(self).bids_view() == old(self).bids_view())),
    {
        let ghost old_bids = self.bids@;
        let ghost old_asks = self.asks@;
        match find_order(&self.bids, id) {
            Some(k) => {
                let o = self.bids.remove(k);
                proof {
                    lemma_remove_keeps_side(Side::Buy, old_bids, k as int, self.next_id as int);
                    assert(self.bids@ == old_bids.remove(k as int));
                }
                Ok(o)
            },
            None => match find_order(&self.asks, id) {
                Some(k) => {
                    let o = self.asks.remove(k);
                    proof {
                        lemma_remove_keeps_side(
                            Side::Sell,
                            old_asks,
                            k as int,
                            self.next_id as int,
                        );
                        assert(self.asks@ == old_asks.remove(k as int));
                    }
                    Ok(o)
                },
                None => Err(Error::UnknownOrder),
            },
        }
    }

    /// Whether a trade print at `price` reaches the best bid.
    pub open spec fn trade_hits_bids(self, price: int) -> bool {
        self.bids_view().len() > 0 && self.bids_view()[0].price >= price
    }

    /// Fills resting orders against a trade print of `size` at `price`:
    /// the bids at or above the price when it reaches the best bid, else the
    /// asks at or below it; best first, at their own prices, up to `size`.
    pub fn fill_with_trade(&mut self, price: i64, size: i64) -> (r: Result<Vec<Fill>, Error>)
        requires
            old(self).wf(),
        ensures
            final(self).wf(),
            final(self).next_order_id() == old(self).next_order_id(),
            final(self).max_resting() == old(self).max_resting(),
            price <= 0 ==> r == Err::<Vec<Fill>, Error>(Error::InvalidPrice),
            price > 0 && size <= 0 ==> r == Err::<Vec<Fill>, Error>(Error::InvalidQuantity),
            r is Err ==> *final(self) == *old(self),
            price > 0 && size > 0 ==> (r matches Ok(fills) && {
                let side = if old(self).trade_hits_bids(price as int) {
                    Side::Buy
                } else {
                    Side::Sell
                };
                &&& fills_prefix(side, old(self).side_view(side), fills@, price as int)
                &&& final(self).side_view(side) == after_match(old(self).side_view(side), fills@)
                &&& final(self).side_view(opposite(side)) == old(self).side_view(opposite(side))
                &&& filled_total(fills@) <= size
                &&& filled_total(fills@) < size ==> final(self).side_view(side).len() == 0
                    || !touches(side, final(self).side_view(side)[0].price as int, price as int)
            }),
    {
        if price <= 0 {
            return Err(Error::InvalidPrice);
        }
        if size <= 0 {
            return Err(Error::InvalidQuantity);
        }
        let ghost old_bids = self.bids@;
        let ghost old_asks = self.asks@;
        let id = self.next_id;
        if self.bids.len() > 0 && self.bids[0].price >= price {
            let (fills, _rem) = take_crossing(&mut self.bids, Side::Buy, price, size, id);
            Ok(fills)
        } else {
            let (fills, _rem) = take_crossing(&mut self.asks, Side::Sell, price, size, id);
            Ok(fills)
        }
    }
}

/// Bid prices descend and ask prices ascend, and every bid lies below every
/// ask.
pub proof fn lemma_book_ordered(book: OrderBook)
    requires
        book.wf(),
    ensures
        forall|i: int, j: int|
            0 <= i < j < book.bids_view().len() ==> #[trigger] book.bids_view()[i].price
                >= #[trigger] book.bids_view()[j].price,
        forall|i: int, j: int|
            0 <= i < j < book.asks_view().len() ==> #[trigger] book.asks_view()[i].price
                <= #[trigger] book.asks_view()[j].price,
        forall|i: int, j: int|
            0 <= i < book.bids_view().len() && 0 <= j < book.asks_view().len()
                ==> #[trigger] book.bids_view()[i].price < #[trigger] book.asks_view()[j].price,
{
    let b = book.bids_view();
    let a = book.asks_view();
    assert forall|i: int, j: int| 0 <= i < j < b.len() implies #[trigger] b[i].price >= #[trigger] b[j].price by {
        assert(before(Side::Buy, b[i], b[j]));
    }
    assert forall|i: int, j: int| 0 <= i < j < a.len() implies #[trigger] a[i].price <= #[trigger] a[j].price by {
        assert(before(Side::Sell, a[i], a[j]));
    }
    assert forall|i: int, j: int|
        0 <= i < b.len() && 0 <= j < a.len() implies #[trigger] b[i].price < #[trigger] a[j].price by {
        lemma_first_is_best(Side::Buy, b, i);
        lemma_first_is_best(Side::Sell, a, j);
    }
}

} // verus!
