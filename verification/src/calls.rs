//! Calls as values: what a caller may ask of the market, and what a series of
//! such calls makes of it.

use vstd::prelude::*;
use crate::error::MarketError;
use crate::ledger::Ledger;
use crate::table::lookup;

verus! {

/// One call that may change the market, with what the host and the caller
/// bring to it.
pub enum Call {
    Init,
    AddPromotionSecret { invoker: Seq<u8>, secret: Seq<u8> },
    RegisterAsBrand { invoker: Seq<u8> },
    AddEligiblePromotions { seller: Seq<u8>, secret: Seq<u8> },
    AddGenStation { invoker: Seq<u8>, code: Seq<u8> },
    UpdateHmTokenBalance { now: u64, code: Seq<u8>, new_value: u64 },
    ListOrder {
        invoker: Seq<u8>,
        now: u64,
        sell_price: u64,
        no_of_hm_tokens: u64,
        option_price: u64,
        duration: u64,
    },
    CreateBuyOrder { invoker: Seq<u8>, now: u64, payment: u64, order_id: u64 },
    TakeOnOption { invoker: Seq<u8>, now: u64, payment: u64, order_id: u64 },
    ConsumeToken { invoker: Seq<u8>, now: u64, payment: u64, order_id: u64 },
    RedeemTokens { now: u64, value: u64, user: Seq<u8> },
    EndOption { order_id: u64 },
    UpdateTime { now: u64 },
    CheckExpiredOptions { now: u64 },
    CheckVerifiedSensors { code: Seq<u8> },
}

impl Call {
    /// The host's clock as the call reads it, if it does.
    pub open spec fn clock(self) -> Option<u64> {
        match self {
            Call::UpdateHmTokenBalance { now, .. } => Some(now),
            Call::ListOrder { now, .. } => Some(now),
            Call::CreateBuyOrder { now, .. } => Some(now),
            Call::TakeOnOption { now, .. } => Some(now),
            Call::ConsumeToken { now, .. } => Some(now),
            Call::RedeemTokens { now, .. } => Some(now),
            Call::UpdateTime { now } => Some(now),
            Call::CheckExpiredOptions { now } => Some(now),
            _ => None,
        }
    }

    /// Whether the call sweeps the order book before anything else.
    pub open spec fn sweeps(self) -> bool {
        self.clock() is Some && !(self is UpdateTime)
    }
}

impl Ledger {
    /// The market after `call`, or why the call is refused.
    pub open spec fn apply(self, call: Call) -> Result<Ledger, MarketError> {
        match call {
            Call::Init => Ok(self.init()),
            Call::AddPromotionSecret { invoker, secret } => Ok(
                self.add_promotion_secret(invoker, secret),
            ),
            Call::RegisterAsBrand { invoker } => Ok(self.register_as_brand(invoker)),
            Call::AddEligiblePromotions { seller, secret } => Ok(
                self.add_eligible_promotions(seller, secret),
            ),
            Call::AddGenStation { invoker, code } => Ok(self.add_gen_station(invoker, code)),
            Call::UpdateHmTokenBalance { now, code, new_value } => self.update_hm_token_balance(
                now,
                code,
                new_value,
            ),
            Call::ListOrder {
                invoker,
                now,
                sell_price,
                no_of_hm_tokens,
                option_price,
                duration,
            } => self.list_order(invoker, now, sell_price, no_of_hm_tokens, option_price, duration),
            Call::CreateBuyOrder { invoker, now, payment, order_id } => self.create_buy_order(
                invoker,
                now,
                payment,
                order_id,
            ),
            Call::TakeOnOption { invoker, now, payment, order_id } => self.take_on_option(
                invoker,
                now,
                payment,
                order_id,
            ),
            Call::ConsumeToken { invoker, now, payment, order_id } => self.consume_token(
                invoker,
                now,
                payment,
                order_id,
            ),
            Call::RedeemTokens { now, value, user } => self.redeem_tokens(now, value, user),
            Call::EndOption { order_id } => self.end_option(order_id),
            Call::UpdateTime { now } => Ok(self.update_time(now)),
            Call::CheckExpiredOptions { now } => self.check_expired_options(now),
            Call::CheckVerifiedSensors { code } => Ok(self.check_verified_sensors(code)),
        }
    }

    /// The market after `call`: unchanged where the call is refused.
    pub open spec fn step(self, call: Call) -> Ledger {
        match self.apply(call) {
            Ok(next) => next,
            Err(_) => self,
        }
    }

    /// The market after the calls of `calls`, made one after the other.
    pub open spec fn run(self, calls: Seq<Call>) -> Ledger
        decreases calls.len(),
    {
        if calls.len() == 0 {
            self
        } else {
            self.run(calls.drop_last()).step(calls.last())
        }
    }

    /// The tokens that `call` mints: what the oracle's word adds to a
    /// producer's balance, or, where it lowers the balance, takes from it.
    pub open spec fn minted(self, call: Call) -> int {
        match call {
            Call::UpdateHmTokenBalance { now, code, new_value } => match (
                self.check_expired_options(now),
                self.apply(call),
            ) {
                (Ok(swept), Ok(_)) => new_value - swept.balance(
                    lookup(swept.gen_station_to_address, code)->Some_0,
                ),
                _ => 0,
            },
            _ => 0,
        }
    }

    /// The tokens minted over the calls of `calls`.
    pub open spec fn minted_over(self, calls: Seq<Call>) -> int
        decreases calls.len(),
    {
        if calls.len() == 0 {
            0
        } else {
            self.minted_over(calls.drop_last()) + self.run(calls.drop_last()).minted(calls.last())
        }
    }

    /// Whether `call` goes through and destroys tokens: it redeems some, or it
    /// ends the option of an order that nobody holds, so that the seller pays
    /// for tokens that were in escrow all along.
    pub open spec fn burns(self, call: Call) -> bool {
        self.apply(call) is Ok && match call {
            Call::RedeemTokens { now, value, .. } => value > 0 || !self.book().sweep_keeps_tokens(
                now,
                0,
            ),
            Call::EndOption { order_id } => !self.order_array[order_id as int].fulfilled
                && self.order_array[order_id as int].no_of_hm_tokens > 0,
            _ => call.sweeps() && !self.book().sweep_keeps_tokens(call.clock()->Some_0, 0),
        }
    }

    /// Whether none of the calls of `calls`, made one after the other, destroys
    /// tokens.
    pub open spec fn never_burns(self, calls: Seq<Call>) -> bool
        decreases calls.len(),
    {
        if calls.len() == 0 {
            true
        } else {
            self.never_burns(calls.drop_last()) && !self.run(calls.drop_last()).burns(calls.last())
        }
    }
}

} // verus!
