//! A deterministic futures-exchange accounting core: exact fixed-point money,
//! a double-entry ledger, an isolated-margin position, a risk engine, the
//! market state that drives it, a price-time-priority order book, and the
//! exchange that sequences them one event at a time.

pub mod decimal;
pub mod currency;
pub mod errors;
pub mod futures_type;
pub mod accounting;
pub mod position_inner;
pub mod market_state;
pub mod leverage;
pub mod risk_engine;
pub mod order_book;
pub mod exchange;
