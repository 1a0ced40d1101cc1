//! The order book next to the balances it draws on: ending an option, and the
//! sweep that ends every option whose window has passed.

use vstd::prelude::*;
use crate::error::MarketError;
use crate::order::Order;
use crate::order::OrderView;
use crate::order::escrow;
use crate::order::lemma_escrow_update;
use crate::order::orders_wf;
use crate::table::Table;
use crate::table::amount;
use crate::table::distinct_keys;
use crate::table::lemma_put_distinct;
use crate::table::lemma_put_lookup;
use crate::table::lemma_total_put;
use crate::table::put;
use crate::table::total;

verus! {

/// The orders and the spendable balances, taken together.
pub struct Book {
    pub orders: Seq<OrderView>,
    pub balances: Seq<(Seq<u8>, u64)>,
}

impl Book {
    /// The book's invariant.
    pub open spec fn wf(self) -> bool {
        orders_wf(self.orders) && distinct_keys(self.balances)
    }

    /// Ends the option on the order at `id`: its tokens are taken back from the
    /// owner's balance, and the order returns to its seller, open again.
    pub open spec fn end_option(self, id: int) -> Result<Book, MarketError> {
        if !(0 <= id < self.orders.len()) {
            Err(MarketError::OrderOutOfRange)
        } else {
            let order = self.orders[id];
            let held = amount(self.balances, order.owner);
            if held < order.no_of_hm_tokens {
                Err(MarketError::InsufficientBalance)
            } else {
                Ok(
                    Book {
                        orders: self.orders.update(id, order.reset()),
                        balances: put(
                            self.balances,
                            order.owner,
                            (held - order.no_of_hm_tokens) as u64,
                        ),
                    },
                )
            }
        }
    }

    /// Ends, in the order of their ids, the option of each order from `from` on
    /// whose window lies before `now`. The first one that cannot be ended stops
    /// the sweep.
    pub open spec fn sweep_from(self, now: u64, from: int) -> Result<Book, MarketError>
        decreases self.orders.len() - from,
    {
        if from < 0 || from >= self.orders.len() {
            Ok(self)
        } else if self.orders[from].expired(now) {
            match self.end_option(from) {
                Ok(next) => next.sweep_from(now, from + 1),
                Err(e) => Err(e),
            }
        } else {
            self.sweep_from(now, from + 1)
        }
    }

    /// The sweep over the whole book.
    pub open spec fn sweep(self, now: u64) -> Result<Book, MarketError> {
        self.sweep_from(now, 0)
    }

    /// All tokens in the book: the balances, and what the orders hold in escrow.
    pub open spec fn tokens(self) -> nat {
        total(self.balances) + escrow(self.orders)
    }

    /// Whether a sweep at `now`, over the orders from `from` on, only ends
    /// options that somebody holds: none of these orders has tokens in escrow
    /// and a window that lies before `now`.
    pub open spec fn sweep_keeps_tokens(self, now: u64, from: int) -> bool {
        forall|i: int|
            from <= i < self.orders.len() && (#[trigger] self.orders[i]).expired(now)
                ==> self.orders[i].fulfilled || self.orders[i].no_of_hm_tokens == 0
    }
}

/// The tokens that a sweep at `now` takes back from `who`, over the orders from
/// `from` on.
pub open spec fn owed(orders: Seq<OrderView>, now: u64, who: Seq<u8>, from: int) -> nat
    decreases orders.len() - from,
{
    if from < 0 || from >= orders.len() {
        0
    } else if orders[from].expired(now) && orders[from].owner == who {
        orders[from].no_of_hm_tokens as nat + owed(orders, now, who, from + 1)
    } else {
        owed(orders, now, who, from + 1)
    }
}

/// What is owed from `from` on depends on the orders from `from` on alone.
pub proof fn lemma_owed_same(a: Seq<OrderView>, b: Seq<OrderView>, now: u64, who: Seq<u8>, from: int)
    requires
        a.len() == b.len(),
        0 <= from,
        forall|i: int| from <= i < a.len() ==> a[i] == b[i],
    ensures
        owed(a, now, who, from) == owed(b, now, who, from),
    decreases a.len() - from,
{
    if from < a.len() {
        lemma_owed_same(a, b, now, who, from + 1);
    }
}

/// Ending an option keeps the book's invariant and changes no other order.
pub proof fn lemma_end_option(book: Book, id: int)
    requires
        book.wf(),
        book.end_option(id) is Ok,
    ensures
        book.end_option(id)->Ok_0.wf(),
        book.end_option(id)->Ok_0.orders.len() == book.orders.len(),
        book.end_option(id)->Ok_0.orders == book.orders.update(id, book.orders[id].reset()),
{
    let order = book.orders[id];
    let held = amount(book.balances, order.owner);
    lemma_put_distinct(book.balances, order.owner, (held - order.no_of_hm_tokens) as u64);
}

/// What a sweep that succeeds leaves behind: a book that keeps its invariant, in
/// which each order from `from` on whose window had passed is back with its
/// seller, and every other order is as it was.
pub proof fn lemma_sweep_orders(book: Book, now: u64, from: int)
    requires
        book.wf(),
        0 <= from,
        book.sweep_from(now, from) is Ok,
    ensures
        book.sweep_from(now, from)->Ok_0.wf(),
        book.sweep_from(now, from)->Ok_0.orders.len() == book.orders.len(),
        forall|i: int|
            0 <= i < book.orders.len() ==> #[trigger] book.sweep_from(now, from)->Ok_0.orders[i]
                == if i >= from && book.orders[i].expired(now) {
                book.orders[i].reset()
            } else {
                book.orders[i]
            },
    decreases book.orders.len() - from,
{
    if from >= book.orders.len() {
    } else if book.orders[from].expired(now) {
        let next = book.end_option(from)->Ok_0;
        lemma_end_option(book, from);
        lemma_sweep_orders(next, now, from + 1);
    } else {
        lemma_sweep_orders(book, now, from + 1);
    }
}

/// After a sweep that succeeds, each balance is what it was less what was owed.
pub proof fn lemma_sweep_balances(book: Book, now: u64, from: int, who: Seq<u8>)
    requires
        book.wf(),
        0 <= from,
        book.sweep_from(now, from) is Ok,
    ensures
        amount(book.sweep_from(now, from)->Ok_0.balances, who) == amount(book.balances, who) - owed(
            book.orders,
            now,
            who,
            from,
        ),
    decreases book.orders.len() - from,
{
    if from >= book.orders.len() {
    } else if book.orders[from].expired(now) {
        let order = book.orders[from];
        let held = amount(book.balances, order.owner);
        let next = book.end_option(from)->Ok_0;
        lemma_end_option(book, from);
        lemma_put_lookup(book.balances, order.owner, (held - order.no_of_hm_tokens) as u64, who);
        lemma_sweep_balances(next, now, from + 1, who);
        lemma_owed_same(next.orders, book.orders, now, who, from + 1);
    } else {
        lemma_sweep_balances(book, now, from + 1, who);
    }
}

/// A sweep succeeds where nobody owes more than they hold.
pub proof fn lemma_sweep_succeeds(book: Book, now: u64, from: int)
    requires
        book.wf(),
        0 <= from,
        forall|who: Seq<u8>| #[trigger] owed(book.orders, now, who, from) <= amount(book.balances, who),
    ensures
        book.sweep_from(now, from) is Ok,
    decreases book.orders.len() - from,
{
    if from >= book.orders.len() {
    } else if book.orders[from].expired(now) {
        let order = book.orders[from];
        let held = amount(book.balances, order.owner);
        assert(owed(book.orders, now, order.owner, from) <= held);
        let next = book.end_option(from)->Ok_0;
        lemma_end_option(book, from);
        assert forall|who: Seq<u8>| #[trigger] owed(next.orders, now, who, from + 1) <= amount(
            next.balances,
            who,
        ) by {
            lemma_put_lookup(book.balances, order.owner, (held - order.no_of_hm_tokens) as u64, who);
            lemma_owed_same(next.orders, book.orders, now, who, from + 1);
            assert(owed(book.orders, now, who, from) <= amount(book.balances, who));
        }
        lemma_sweep_succeeds(next, now, from + 1);
    } else {
        assert forall|who: Seq<u8>| #[trigger] owed(book.orders, now, who, from + 1) <= amount(
            book.balances,
            who,
        ) by {
            assert(owed(book.orders, now, who, from) <= amount(book.balances, who));
        }
        lemma_sweep_succeeds(book, now, from + 1);
    }
}

/// A sweep that fails does so for want of tokens.
pub proof fn lemma_sweep_error(book: Book, now: u64, from: int)
    requires
        0 <= from,
        book.sweep_from(now, from) is Err,
    ensures
        book.sweep_from(now, from) == Err::<Book, MarketError>(MarketError::InsufficientBalance),
    decreases book.orders.len() - from,
{
    if from >= book.orders.len() {
    } else if book.orders[from].expired(now) {
        if book.end_option(from) is Ok {
            let next = book.end_option(from)->Ok_0;
            lemma_sweep_error(next, now, from + 1);
        }
    } else {
        lemma_sweep_error(book, now, from + 1);
    }
}

/// A sweep that only ends options that somebody holds keeps the number of
/// tokens in the book.
pub proof fn lemma_sweep_tokens(book: Book, now: u64, from: int)
    requires
        book.wf(),
        0 <= from,
        book.sweep_from(now, from) is Ok,
        book.sweep_keeps_tokens(now, from),
    ensures
        book.sweep_from(now, from)->Ok_0.tokens() == book.tokens(),
    decreases book.orders.len() - from,
{
    if from >= book.orders.len() {
    } else if book.orders[from].expired(now) {
        let order = book.orders[from];
        let held = amount(book.balances, order.owner);
        let next = book.end_option(from)->Ok_0;
        lemma_end_option(book, from);
        lemma_total_put(book.balances, order.owner, (held - order.no_of_hm_tokens) as u64);
        lemma_escrow_update(book.orders, from, order.reset());
        assert(next.tokens() == book.tokens());
        assert(next.sweep_keeps_tokens(now, from + 1)) by {
            assert forall|i: int|
                from + 1 <= i < next.orders.len() && (#[trigger] next.orders[i]).expired(
                    now,
                ) implies next.orders[i].fulfilled || next.orders[i].no_of_hm_tokens == 0 by {
                assert(book.orders[i].expired(now));
            }
        }
        lemma_sweep_tokens(next, now, from + 1);
    } else {
        lemma_sweep_tokens(book, now, from + 1);
    }
}

/// Ends the option on the order at `order_id` in `orders`, drawing on
/// `balances`. Nothing changes where it cannot be ended.
pub(crate) fn end_option_in(orders: &mut Vec<Order>, balances: &mut Table<u64>, order_id: u64) -> (done:
    Result<(), MarketError>)
    requires
        old(balances).wf(),
    ensures
        final(balances).wf(),
        match (Book { orders: old(orders).deep_view(), balances: old(balances)@ }).end_option(
            order_id as int,
        ) {
            Ok(next) => done is Ok && final(orders).deep_view() == next.orders && final(balances)@
                == next.balances,
            Err(e) => done == Err::<(), MarketError>(e) && *final(orders) == *old(orders)
                && *final(balances) == *old(balances),
        },
{
    if order_id >= orders.len() as u64 {
        return Err(MarketError::OrderOutOfRange);
    }
    let at: usize = order_id as usize;
    let held: u64 = balances.amount(&orders[at].owner.bytes);
    if held < orders[at].no_of_hm_tokens {
        return Err(MarketError::InsufficientBalance);
    }
    let owner = orders[at].owner.copy();
    let mut order = orders[at].copy();
    order.owner = order.seller.copy();
    order.fulfilled = false;
    balances.set(owner.bytes, held - orders[at].no_of_hm_tokens);
    orders.set(at, order);
    assert(orders.deep_view() =~= old(orders).deep_view().update(
        at as int,
        old(orders).deep_view()[at as int].reset(),
    ));
    Ok(())
}

/// Sweeps `orders` at `now`, drawing on `balances`. Where the sweep fails, what
/// is left in the two is of no use.
pub(crate) fn sweep_in(orders: &mut Vec<Order>, balances: &mut Table<u64>, now: u64) -> (done: Result<
    (),
    MarketError,
>)
    requires
        old(balances).wf(),
    ensures
        final(balances).wf(),
        match (Book { orders: old(orders).deep_view(), balances: old(balances)@ }).sweep(now) {
            Ok(next) => done is Ok && final(orders).deep_view() == next.orders && final(balances)@
                == next.balances,
            Err(e) => done == Err::<(), MarketError>(e),
        },
{
    let ghost start = Book { orders: orders.deep_view(), balances: balances@ };
    let count: usize = orders.len();
    let mut i: usize = 0;
    while i < count
        invariant
            i <= count,
            count == orders.len(),
            balances.wf(),
            start == (Book { orders: old(orders).deep_view(), balances: old(balances)@ }),
            (Book { orders: orders.deep_view(), balances: balances@ }).sweep_from(now, i as int)
                == start.sweep(now),
        decreases count - i,
    {
        let ghost before = Book { orders: orders.deep_view(), balances: balances@ };
        assert(before.orders[i as int] == orders@[i as int]@);
        if orders[i].is_expired(now) {
            match end_option_in(orders, balances, i as u64) {
                Ok(()) => {},
                Err(e) => {
                    return Err(e);
                },
            }
            assert(orders.deep_view().len() == before.orders.len());
        }
        i = i + 1;
    }
    Ok(())
}

} // verus!
