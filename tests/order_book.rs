use lfest::errors::Error;
use lfest::order_book::{Fill, LimitOrder, OrderBook, Side};

const P: i64 = 1000;

fn fill(order_id: u64, price: i64, quantity: i64) -> Fill {
    Fill { order_id, price: price * P, quantity }
}

fn check_ordered(book: &OrderBook) {
    let b = book.bids();
    let a = book.asks();
    for w in b.windows(2) {
        assert!(w[0].price > w[1].price || (w[0].price == w[1].price && w[0].id < w[1].id));
    }
    for w in a.windows(2) {
        assert!(w[0].price < w[1].price || (w[0].price == w[1].price && w[0].id < w[1].id));
    }
    if let (Some(bb), Some(ba)) = (b.first(), a.first()) {
        assert!(bb.price < ba.price);
    }
}

#[test]
fn makers_rest_in_price_time_priority() {
    let mut book = OrderBook::new(10);
    assert_eq!(book.submit_limit_order(Side::Buy, 100 * P, 1000), Ok((0, vec![])));
    assert_eq!(book.submit_limit_order(Side::Buy, 101 * P, 1000), Ok((1, vec![])));
    assert_eq!(book.submit_limit_order(Side::Buy, 100 * P, 1000), Ok((2, vec![])));
    assert_eq!(book.submit_limit_order(Side::Sell, 102 * P, 1000), Ok((3, vec![])));
    let ids: Vec<u64> = book.bids().iter().map(|o| o.id).collect();
    assert_eq!(ids, vec![1, 0, 2]);
    check_ordered(&book);
}

#[test]
fn taker_matches_best_first_at_resting_prices() {
    let mut book = OrderBook::new(10);
    book.submit_limit_order(Side::Buy, 100 * P, 1000).unwrap();
    book.submit_limit_order(Side::Buy, 101 * P, 1000).unwrap();
    book.submit_limit_order(Side::Buy, 100 * P, 1000).unwrap();
    book.submit_limit_order(Side::Sell, 102 * P, 1000).unwrap();
    let r = book.submit_limit_order(Side::Sell, 100 * P, 2500);
    assert_eq!(r, Ok((4, vec![fill(1, 101, 1000), fill(0, 100, 1000), fill(2, 100, 500)])));
    assert_eq!(
        book.bids().clone(),
        vec![LimitOrder { id: 2, side: Side::Buy, price: 100 * P, quantity: 500 }]
    );
    assert_eq!(book.asks().len(), 1);
    // a buy through the ask rests its remainder
    let r = book.submit_limit_order(Side::Buy, 103 * P, 2000);
    assert_eq!(r, Ok((5, vec![fill(3, 102, 1000)])));
    assert_eq!(book.asks().len(), 0);
    assert_eq!(
        book.bids()[0],
        LimitOrder { id: 5, side: Side::Buy, price: 103 * P, quantity: 1000 }
    );
    check_ordered(&book);
}

#[test]
fn submission_errors() {
    let mut book = OrderBook::new(1);
    assert_eq!(book.submit_limit_order(Side::Buy, 0, 1000), Err(Error::InvalidPrice));
    assert_eq!(book.submit_limit_order(Side::Buy, 100 * P, 0), Err(Error::InvalidQuantity));
    assert_eq!(book.submit_limit_order(Side::Buy, 100 * P, 1000), Ok((0, vec![])));
    assert_eq!(book.submit_limit_order(Side::Buy, 99 * P, 1000), Err(Error::MaxActiveOrders));
    assert_eq!(book.submit_limit_order(Side::Sell, 101 * P, 1000), Ok((1, vec![])));
    assert_eq!(book.bids().len(), 1);
}

#[test]
fn cancel_orders() {
    let mut book = OrderBook::new(10);
    book.submit_limit_order(Side::Buy, 100 * P, 1000).unwrap();
    book.submit_limit_order(Side::Sell, 105 * P, 1000).unwrap();
    assert_eq!(
        book.cancel_order(1),
        Ok(LimitOrder { id: 1, side: Side::Sell, price: 105 * P, quantity: 1000 })
    );
    assert_eq!(book.cancel_order(1), Err(Error::UnknownOrder));
    assert_eq!(book.cancel_order(7), Err(Error::UnknownOrder));
    assert_eq!(book.cancel_order(0).unwrap().id, 0);
    assert_eq!(book.bids().len(), 0);
}

#[test]
fn trade_prints_fill_touched_orders() {
    let mut book = OrderBook::new(10);
    book.submit_limit_order(Side::Buy, 100 * P, 1000).unwrap();
    book.submit_limit_order(Side::Buy, 99 * P, 1000).unwrap();
    book.submit_limit_order(Side::Sell, 101 * P, 1000).unwrap();
    book.submit_limit_order(Side::Sell, 102 * P, 1000).unwrap();
    assert_eq!(book.fill_with_trade(0, 1), Err(Error::InvalidPrice));
    assert_eq!(book.fill_with_trade(P, 0), Err(Error::InvalidQuantity));
    // a print at 100.5 touches nothing
    assert_eq!(book.fill_with_trade(1005 * 100, 1000), Ok(vec![]));
    // a print at 99 of 1.5 fills the bid at 100 and half the bid at 99
    assert_eq!(book.fill_with_trade(99 * P, 1500), Ok(vec![fill(0, 100, 1000), fill(1, 99, 500)]));
    assert_eq!(book.bids()[0].quantity, 500);
    // a print at 103 of 5 fills both asks
    assert_eq!(book.fill_with_trade(103 * P, 5000), Ok(vec![fill(2, 101, 1000), fill(3, 102, 1000)]));
    assert_eq!(book.asks().len(), 0);
    check_ordered(&book);
}
