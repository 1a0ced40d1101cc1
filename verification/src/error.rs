//! Why a call on the market is turned down.

use vstd::prelude::*;

verus! {

/// The reasons for which the market refuses a call. A refused call changes
/// nothing.
#[derive(Debug, Clone, Copy, PartialEq, Eq, Structural)]
pub enum MarketError {
    /// Less was paid with the call than the price or the fee asked.
    InsufficientPayment,
    /// The order is held by a buyer or taker already.
    AlreadyFulfilled,
    /// An account holds fewer tokens than are to be taken from it.
    InsufficientBalance,
    /// The caller is not a brand.
    Permission,
    /// Something the call builds on was never stored: the brand's promotion
    /// secret, or the producer behind a sensor code.
    MissingPrerequisite,
    /// No order has this id.
    OrderOutOfRange,
    /// The order holds no tokens, so that a sale of it has no unit price.
    EmptyOrder,
    /// A balance or the number of orders would leave 64 bits.
    Overflow,
}

impl MarketError {
    /// The number under which a host reports the error.
    pub open spec fn spec_code(self) -> u32 {
        match self {
            MarketError::InsufficientPayment => 1,
            MarketError::AlreadyFulfilled => 2,
            MarketError::InsufficientBalance => 3,
            MarketError::Permission => 4,
            MarketError::MissingPrerequisite => 5,
            MarketError::OrderOutOfRange => 6,
            MarketError::EmptyOrder => 7,
            MarketError::Overflow => 8,
        }
    }

    /// The number under which a host reports the error.
    #[verifier::when_used_as_spec(spec_code)]
    pub fn code(self) -> (code: u32)
        ensures
            code == self.spec_code(),
    {
        match self {
            MarketError::InsufficientPayment => 1,
            MarketError::AlreadyFulfilled => 2,
            MarketError::InsufficientBalance => 3,
            MarketError::Permission => 4,
            MarketError::MissingPrerequisite => 5,
            MarketError::OrderOutOfRange => 6,
            MarketError::EmptyOrder => 7,
            MarketError::Overflow => 8,
        }
    }
}

} // verus!
