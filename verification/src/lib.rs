//! A market for HM tokens: listings, options on them, and the balances behind them.
//!
//! The crate holds the market's rules as a state machine over plain values. The
//! host ledger (the caller's identity, the clock, the payment that comes with a
//! call) is handed in with each call; what has to be paid out is handed back.

pub mod bytes;
pub mod table;
pub mod error;
pub mod order;
pub mod book;
pub mod ledger;
pub mod calls;
pub mod contract;
pub mod laws;
