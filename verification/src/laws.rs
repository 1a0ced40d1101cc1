//! What holds of the market whatever is asked of it.

use vstd::prelude::*;
use crate::book::owed;
use crate::book::lemma_end_option;
use crate::book::lemma_sweep_balances;
use crate::book::lemma_sweep_error;
use crate::book::lemma_sweep_orders;
use crate::book::lemma_sweep_succeeds;
use crate::book::lemma_sweep_tokens;
use crate::calls::Call;
use crate::error::MarketError;
use crate::ledger::Ledger;
use crate::ledger::INITIAL_MARKET_PRICE;
use crate::order::OrderView;
use crate::order::lemma_escrow_push;
use crate::order::lemma_escrow_update;
use crate::table::amount;
use crate::table::lookup;
use crate::table::lemma_put_distinct;
use crate::table::lemma_put_lookup;
use crate::table::lemma_total_put;

verus! {

/// A sweep that succeeds keeps the market's invariant.
proof fn lemma_swept_wf(s: Ledger, now: u64)
    requires
        s.wf(),
        s.check_expired_options(now) is Ok,
    ensures
        s.check_expired_options(now)->Ok_0.wf(),
        s.check_expired_options(now)->Ok_0.order_array.len() == s.order_array.len(),
{
    lemma_sweep_orders(s.book(), now, 0);
}

/// Every call keeps the market's invariant: afterwards each order's id is
/// still its place in the book, an order that nobody holds still belongs to
/// its seller, and no table has a key twice.
pub proof fn law_invariant_kept(s: Ledger, call: Call)
    requires
        s.wf(),
    ensures
        s.step(call).wf(),
{
    match call {
        Call::Init => {},
        Call::AddPromotionSecret { invoker, secret } => {
            lemma_put_distinct(s.address_to_promotion_secret, invoker, secret);
        },
        Call::RegisterAsBrand { invoker } => {
            lemma_put_distinct(s.is_brand, invoker, true);
        },
        Call::AddEligiblePromotions { seller, secret } => {
            lemma_put_distinct(
                s.address_to_eligible_promotions,
                seller,
                s.promotions(seller).push(secret),
            );
        },
        Call::AddGenStation { invoker, code } => {
            lemma_put_distinct(s.gen_station_to_address, code, invoker);
        },
        Call::UpdateHmTokenBalance { now, code, new_value } => {
            if s.apply(call) is Ok {
                lemma_swept_wf(s, now);
                let swept = s.check_expired_options(now)->Ok_0;
                lemma_put_distinct(
                    swept.balances,
                    lookup(swept.gen_station_to_address, code)->Some_0,
                    new_value,
                );
            }
        },
        Call::ListOrder { invoker, now, sell_price, no_of_hm_tokens, option_price, duration } => {
            if s.apply(call) is Ok {
                lemma_swept_wf(s, now);
                let swept = s.check_expired_options(now)->Ok_0;
                lemma_put_distinct(
                    swept.balances,
                    invoker,
                    (swept.balance(invoker) - no_of_hm_tokens) as u64,
                );
            }
        },
        Call::CreateBuyOrder { invoker, now, payment, order_id } => {
            if s.apply(call) is Ok {
                lemma_swept_wf(s, now);
                let swept = s.check_expired_options(now)->Ok_0;
                let order = swept.order_array[order_id as int];
                lemma_put_distinct(
                    swept.balances,
                    invoker,
                    (swept.balance(invoker) + order.no_of_hm_tokens) as u64,
                );
            }
        },
        Call::TakeOnOption { invoker, now, payment, order_id } => {
            if s.apply(call) is Ok {
                lemma_swept_wf(s, now);
                let swept = s.check_expired_options(now)->Ok_0;
                let order = swept.order_array[order_id as int];
                lemma_put_distinct(
                    swept.balances,
                    invoker,
                    (swept.balance(invoker) + order.no_of_hm_tokens) as u64,
                );
            }
        },
        Call::ConsumeToken { invoker, now, payment, order_id } => {
            if s.apply(call) is Ok {
                lemma_swept_wf(s, now);
                let swept = s.check_expired_options(now)->Ok_0;
                let order = swept.order_array[order_id as int];
                lemma_put_distinct(
                    swept.rec_balances,
                    invoker,
                    (swept.rec_balance(invoker) + order.no_of_hm_tokens) as u64,
                );
                lemma_put_distinct(
                    swept.address_to_eligible_promotions,
                    order.seller,
                    swept.promotions(order.seller).push(
                        lookup(swept.address_to_promotion_secret, invoker)->Some_0,
                    ),
                );
            }
        },
        Call::RedeemTokens { now, value, user } => {
            if s.apply(call) is Ok {
                lemma_swept_wf(s, now);
                let swept = s.check_expired_options(now)->Ok_0;
                lemma_put_distinct(swept.balances, user, (swept.balance(user) - value) as u64);
            }
        },
        Call::EndOption { order_id } => {
            if s.apply(call) is Ok {
                lemma_end_option(s.book(), order_id as int);
            }
        },
        Call::UpdateTime { now } => {},
        Call::CheckExpiredOptions { now } => {
            if s.apply(call) is Ok {
                lemma_swept_wf(s, now);
            }
        },
        Call::CheckVerifiedSensors { code } => {},
    }
}

/// Whatever calls are made on a new market, each order's id is its place in
/// the book.
pub proof fn law_order_ids(calls: Seq<Call>)
    ensures
        Ledger::empty().run(calls).wf(),
        forall|i: int|
            0 <= i < Ledger::empty().run(calls).order_array.len() ==> (
            #[trigger] Ledger::empty().run(calls).order_array[i]).order_id == i,
    decreases calls.len(),
{
    if calls.len() > 0 {
        law_order_ids(calls.drop_last());
        law_invariant_kept(Ledger::empty().run(calls.drop_last()), calls.last());
    }
}

/// The market's clock never goes back, as long as the host's does not: a call
/// that reads a clock no earlier than the market's leaves the market's clock
/// no earlier than it was. Starting the market anew sets the clock to zero,
/// which is the one case left out.
pub proof fn law_clock_never_goes_back(s: Ledger, call: Call)
    requires
        !(call is Init) || s.latest_timestamp == 0,
        call.clock() matches Some(now) ==> now >= s.latest_timestamp,
    ensures
        s.step(call).latest_timestamp >= s.latest_timestamp,
        s.apply(call) is Ok && call.clock() is Some ==> s.step(call).latest_timestamp
            == call.clock()->Some_0,
{
}

/// A call that goes through changes the number of tokens by what it mints,
/// unless it destroys tokens.
pub proof fn law_tokens_conserved(s: Ledger, call: Call)
    requires
        s.wf(),
        !s.burns(call),
    ensures
        s.step(call).supply() == s.supply() + s.minted(call),
{
    if s.apply(call) is Ok {
        if call.sweeps() {
            let now = call.clock()->Some_0;
            lemma_sweep_orders(s.book(), now, 0);
            lemma_sweep_tokens(s.book(), now, 0);
        }
        match call {
            Call::UpdateHmTokenBalance { now, code, new_value } => {
                let swept = s.check_expired_options(now)->Ok_0;
                lemma_total_put(
                    swept.balances,
                    lookup(swept.gen_station_to_address, code)->Some_0,
                    new_value,
                );
            },
            Call::ListOrder { invoker, now, sell_price, no_of_hm_tokens, option_price, duration } => {
                let swept = s.check_expired_options(now)->Ok_0;
                lemma_total_put(
                    swept.balances,
                    invoker,
                    (swept.balance(invoker) - no_of_hm_tokens) as u64,
                );
                lemma_escrow_push(
                    swept.order_array,
                    OrderView::listed(
                        invoker,
                        swept.order_array.len() as u64,
                        sell_price,
                        no_of_hm_tokens,
                        option_price,
                        duration,
                        now,
                    ),
                );
            },
            Call::CreateBuyOrder { invoker, now, payment, order_id } => {
                let swept = s.check_expired_options(now)->Ok_0;
                let order = swept.order_array[order_id as int];
                lemma_total_put(
                    swept.balances,
                    invoker,
                    (swept.balance(invoker) + order.no_of_hm_tokens) as u64,
                );
                lemma_escrow_update(swept.order_array, order_id as int, order.sold_to(invoker));
            },
            Call::TakeOnOption { invoker, now, payment, order_id } => {
                let swept = s.check_expired_options(now)->Ok_0;
                let order = swept.order_array[order_id as int];
                lemma_total_put(
                    swept.balances,
                    invoker,
                    (swept.balance(invoker) + order.no_of_hm_tokens) as u64,
                );
                lemma_escrow_update(
                    swept.order_array,
                    order_id as int,
                    order.taken_by(invoker, now),
                );
            },
            Call::ConsumeToken { invoker, now, payment, order_id } => {
                let swept = s.check_expired_options(now)->Ok_0;
                let order = swept.order_array[order_id as int];
                lemma_total_put(
                    swept.rec_balances,
                    invoker,
                    (swept.rec_balance(invoker) + order.no_of_hm_tokens) as u64,
                );
                lemma_escrow_update(swept.order_array, order_id as int, order.sold_to(invoker));
            },
            Call::RedeemTokens { now, value, user } => {
                let swept = s.check_expired_options(now)->Ok_0;
                lemma_total_put(swept.balances, user, (swept.balance(user) - value) as u64);
            },
            Call::EndOption { order_id } => {
                let order = s.order_array[order_id as int];
                lemma_total_put(
                    s.balances,
                    order.owner,
                    (s.balance(order.owner) - order.no_of_hm_tokens) as u64,
                );
                lemma_escrow_update(s.order_array, order_id as int, order.reset());
            },
            _ => {},
        }
    }
}

/// Over any series of calls none of which destroys tokens, the tokens there
/// are, spendable, consumed or in escrow, are those there were and those
/// minted since.
pub proof fn law_supply_is_minted(s: Ledger, calls: Seq<Call>)
    requires
        s.wf(),
        s.never_burns(calls),
    ensures
        s.run(calls).wf(),
        s.run(calls).supply() == s.supply() + s.minted_over(calls),
    decreases calls.len(),
{
    if calls.len() > 0 {
        law_supply_is_minted(s, calls.drop_last());
        law_invariant_kept(s.run(calls.drop_last()), calls.last());
        law_tokens_conserved(s.run(calls.drop_last()), calls.last());
    }
}

/// On a new market, after any series of calls none of which destroys tokens,
/// the tokens there are, spendable, consumed or in escrow, are the tokens that
/// the oracle's words have minted.
pub proof fn law_new_market_supply(calls: Seq<Call>)
    requires
        Ledger::empty().never_burns(calls),
    ensures
        Ledger::empty().run(calls).supply() == Ledger::empty().minted_over(calls),
{
    law_supply_is_minted(Ledger::empty(), calls);
}

/// A sale sets the market price to the order's price per token, rounded down;
/// starting the market anew sets it to the starting price; no other call,
/// taking an option and ending one among them, touches it.
pub proof fn law_market_price(s: Ledger, call: Call)
    requires
        s.wf(),
    ensures
        match call {
            Call::CreateBuyOrder { order_id, .. } | Call::ConsumeToken { order_id, .. } => s.apply(
                call,
            ) is Ok ==> {
                &&& order_id < s.order_array.len()
                &&& s.order_array[order_id as int].no_of_hm_tokens > 0
                &&& s.step(call).creds_market_price == s.order_array[order_id as int].sell_price
                    / s.order_array[order_id as int].no_of_hm_tokens
            },
            Call::Init => s.step(call).creds_market_price == INITIAL_MARKET_PRICE,
            _ => s.step(call).creds_market_price == s.creds_market_price,
        },
        s.apply(call) is Err ==> s.step(call).creds_market_price == s.creds_market_price,
{
    if call.sweeps() && s.check_expired_options(call.clock()->Some_0) is Ok {
        lemma_sweep_orders(s.book(), call.clock()->Some_0, 0);
    }
}

/// What a sweep does: it succeeds just where nobody owes more tokens than they
/// hold, and fails for want of tokens otherwise. Where it succeeds, every
/// order whose window had passed is back with its seller and held by nobody,
/// every other order is as it was, and each balance is less by the tokens of
/// the ended options of which it was the owner.
pub proof fn law_expired_options_end(s: Ledger, now: u64)
    requires
        s.wf(),
    ensures
        s.check_expired_options(now) is Ok <==> forall|who: Seq<u8>| #[trigger]
            owed(s.order_array, now, who, 0) <= s.balance(who),
        s.check_expired_options(now) matches Err(e) ==> e == MarketError::InsufficientBalance,
        s.check_expired_options(now) matches Ok(next) ==> {
            &&& next.latest_timestamp == now
            &&& next.order_array.len() == s.order_array.len()
            &&& forall|i: int|
                0 <= i < s.order_array.len() ==> #[trigger] next.order_array[i]
                    == if s.order_array[i].expired(now) {
                    s.order_array[i].reset()
                } else {
                    s.order_array[i]
                }
            &&& forall|who: Seq<u8>| #[trigger]
                next.balance(who) == s.balance(who) - owed(s.order_array, now, who, 0)
        },
{
    let book = s.book();
    if book.sweep(now) is Ok {
        lemma_sweep_orders(book, now, 0);
        assert forall|who: Seq<u8>| #[trigger]
            amount(book.sweep(now)->Ok_0.balances, who) == amount(book.balances, who) - owed(
                book.orders,
                now,
                who,
                0,
            ) by {
            lemma_sweep_balances(book, now, 0, who);
        }
        assert forall|who: Seq<u8>| #[trigger]
            owed(s.order_array, now, who, 0) <= s.balance(who) by {
            lemma_sweep_balances(book, now, 0, who);
        }
    } else {
        lemma_sweep_error(book, now, 0);
        if forall|who: Seq<u8>| #[trigger] owed(s.order_array, now, who, 0) <= s.balance(who) {
            lemma_sweep_succeeds(book, now, 0);
        }
    }
}

/// Every call that sweeps ends the expired options before it does anything
/// else: where such a call goes through, the sweep at its time succeeds, and
/// each order whose window had passed, but for the one that the call itself is
/// about, is back with its seller and held by nobody.
pub proof fn law_calls_sweep_first(s: Ledger, call: Call, i: int)
    requires
        s.wf(),
        call.sweeps(),
        s.apply(call) is Ok,
        0 <= i < s.order_array.len(),
        s.order_array[i].expired(call.clock()->Some_0),
        match call {
            Call::CreateBuyOrder { order_id, .. }
            | Call::TakeOnOption { order_id, .. }
            | Call::ConsumeToken { order_id, .. } => i != order_id,
            _ => true,
        },
    ensures
        s.check_expired_options(call.clock()->Some_0) is Ok,
        s.step(call).order_array.len() >= s.order_array.len(),
        s.step(call).order_array[i] == s.order_array[i].reset(),
        s.step(call).order_array[i].owner == s.order_array[i].seller,
        !s.step(call).order_array[i].fulfilled,
{
    lemma_sweep_orders(s.book(), call.clock()->Some_0, 0);
}

/// Ending one option takes exactly the order's tokens from its owner, touches
/// no other balance and no other order, and leaves the order with its seller,
/// held by nobody.
pub proof fn law_end_option(s: Ledger, order_id: u64, who: Seq<u8>)
    requires
        s.wf(),
        s.end_option(order_id) is Ok,
    ensures
        order_id < s.order_array.len(),
        s.end_option(order_id)->Ok_0.order_array == s.order_array.update(
            order_id as int,
            s.order_array[order_id as int].reset(),
        ),
        s.end_option(order_id)->Ok_0.balance(who) == if who
            == s.order_array[order_id as int].owner {
            s.balance(who) - s.order_array[order_id as int].no_of_hm_tokens
        } else {
            s.balance(who) as int
        },
{
    let order = s.order_array[order_id as int];
    lemma_put_lookup(
        s.balances,
        order.owner,
        (s.balance(order.owner) - order.no_of_hm_tokens) as u64,
        who,
    );
}

/// Two sweeps at one time are as good as one, as long as the orders whose
/// window has passed hold no tokens: the second sweep then succeeds as the
/// first did, and leaves every order, every balance and all else as the first
/// left them.
pub proof fn law_sweep_twice(s: Ledger, now: u64, who: Seq<u8>)
    requires
        s.wf(),
        forall|i: int|
            0 <= i < s.order_array.len() && (#[trigger] s.order_array[i]).expired(now)
                ==> s.order_array[i].no_of_hm_tokens == 0,
    ensures
        s.check_expired_options(now) is Ok,
        s.check_expired_options(now)->Ok_0.check_expired_options(now) is Ok,
        ({
            let once = s.check_expired_options(now)->Ok_0;
            let twice = once.check_expired_options(now)->Ok_0;
            &&& twice.order_array == once.order_array
            &&& twice.balance(who) == once.balance(who)
            &&& twice == Ledger { balances: twice.balances, ..once }
        }),
{
    lemma_no_tokens_owed(s.order_array, now, 0);
    law_expired_options_end(s, now);
    let once = s.check_expired_options(now)->Ok_0;
    lemma_swept_wf(s, now);
    lemma_no_tokens_owed(once.order_array, now, 0);
    law_expired_options_end(once, now);
    let twice = once.check_expired_options(now)->Ok_0;
    assert(twice.order_array =~= once.order_array);
}

/// Nothing is owed over orders of which those whose window has passed hold no
/// tokens.
proof fn lemma_no_tokens_owed(orders: Seq<OrderView>, now: u64, from: int)
    requires
        0 <= from,
        forall|i: int|
            0 <= i < orders.len() && (#[trigger] orders[i]).expired(now)
                ==> orders[i].no_of_hm_tokens == 0,
    ensures
        forall|who: Seq<u8>| #[trigger] owed(orders, now, who, from) == 0,
    decreases orders.len() - from,
{
    if from < orders.len() {
        lemma_no_tokens_owed(orders, now, from + 1);
        assert forall|who: Seq<u8>| #[trigger] owed(orders, now, who, from) == 0 by {
            assert(owed(orders, now, who, from + 1) == 0);
        }
    } else {
        assert forall|who: Seq<u8>| #[trigger] owed(orders, now, who, from) == 0 by {}
    }
}

} // verus!
