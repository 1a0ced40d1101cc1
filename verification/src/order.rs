//! Orders: one listing each, and the steps a listing goes through.

use vstd::prelude::*;
use crate::bytes::Address;

verus! {

/// A listing of tokens for sale, as the order book keeps it.
#[derive(Debug, PartialEq, Eq)]
pub struct Order {
    /// Who listed the tokens.
    pub seller: Address,
    /// Who holds the listing now: the seller, until a buyer, a brand or a taker
    /// fulfils it.
    pub owner: Address,
    /// The order's place in the book.
    pub order_id: u64,
    /// The price of the whole listing.
    pub sell_price: u64,
    pub is_buy: bool,
    pub is_sale: bool,
    pub is_option: bool,
    /// The premium for taking the option.
    pub option_fee: u64,
    /// For how many seconds a taken option runs; zero once the order is sold.
    pub option_duration: u64,
    /// Whether a buyer, a brand or a taker holds the listing.
    pub fulfilled: bool,
    /// How many tokens are listed.
    pub no_of_hm_tokens: u64,
    /// When the order was listed or, if its option was taken, when that was.
    pub created_at: u64,
}

/// The model of an order.
pub struct OrderView {
    pub seller: Seq<u8>,
    pub owner: Seq<u8>,
    pub order_id: u64,
    pub sell_price: u64,
    pub is_buy: bool,
    pub is_sale: bool,
    pub is_option: bool,
    pub option_fee: u64,
    pub option_duration: u64,
    pub fulfilled: bool,
    pub no_of_hm_tokens: u64,
    pub created_at: u64,
}

impl OrderView {
    /// The order that a listing creates.
    pub open spec fn listed(
        seller: Seq<u8>,
        order_id: u64,
        sell_price: u64,
        no_of_hm_tokens: u64,
        option_fee: u64,
        option_duration: u64,
        now: u64,
    ) -> OrderView {
        OrderView {
            seller,
            owner: seller,
            order_id,
            sell_price,
            is_buy: false,
            is_sale: true,
            is_option: true,
            option_fee,
            option_duration,
            fulfilled: false,
            no_of_hm_tokens,
            created_at: now,
        }
    }

    /// Whether the order's option window lies before `now`.
    pub open spec fn expired(self, now: u64) -> bool {
        self.option_duration > 0 && self.created_at + self.option_duration < now
    }

    /// The order once `buyer` has bought it outright.
    pub open spec fn sold_to(self, buyer: Seq<u8>) -> OrderView {
        OrderView { owner: buyer, fulfilled: true, option_duration: 0, ..self }
    }

    /// The order once `taker` has taken its option at `now`.
    pub open spec fn taken_by(self, taker: Seq<u8>, now: u64) -> OrderView {
        OrderView { owner: taker, fulfilled: true, created_at: now, ..self }
    }

    /// The order once its option has ended: back with the seller.
    pub open spec fn reset(self) -> OrderView {
        OrderView { owner: self.seller, fulfilled: false, ..self }
    }

    /// The price of one token in a sale of the order.
    pub open spec fn unit_price(self) -> u64 {
        if self.no_of_hm_tokens == 0 {
            0
        } else {
            self.sell_price / self.no_of_hm_tokens
        }
    }

    /// The tokens that the order holds in escrow: all of them while nobody
    /// holds the listing, none after.
    pub open spec fn escrowed(self) -> nat {
        if self.fulfilled {
            0
        } else {
            self.no_of_hm_tokens as nat
        }
    }
}

impl View for Order {
    type V = OrderView;

    open spec fn view(&self) -> OrderView {
        OrderView {
            seller: self.seller@,
            owner: self.owner@,
            order_id: self.order_id,
            sell_price: self.sell_price,
            is_buy: self.is_buy,
            is_sale: self.is_sale,
            is_option: self.is_option,
            option_fee: self.option_fee,
            option_duration: self.option_duration,
            fulfilled: self.fulfilled,
            no_of_hm_tokens: self.no_of_hm_tokens,
            created_at: self.created_at,
        }
    }
}

impl DeepView for Order {
    type V = OrderView;

    open spec fn deep_view(&self) -> OrderView {
        self@
    }
}

impl Order {
    /// A second value for the same order.
    pub fn copy(&self) -> (order: Order)
        ensures
            order@ == self@,
    {
        Order {
            seller: self.seller.copy(),
            owner: self.owner.copy(),
            order_id: self.order_id,
            sell_price: self.sell_price,
            is_buy: self.is_buy,
            is_sale: self.is_sale,
            is_option: self.is_option,
            option_fee: self.option_fee,
            option_duration: self.option_duration,
            fulfilled: self.fulfilled,
            no_of_hm_tokens: self.no_of_hm_tokens,
            created_at: self.created_at,
        }
    }

    /// Whether the order's option window lies before `now`.
    pub fn is_expired(&self, now: u64) -> (expired: bool)
        ensures
            expired == self@.expired(now),
    {
        if self.option_duration == 0 {
            return false;
        }
        match self.created_at.checked_add(self.option_duration) {
            Some(end) => end < now,
            None => false,
        }
    }
}

impl Clone for Order {
    fn clone(&self) -> (order: Order)
        ensures
            order@ == self@,
    {
        self.copy()
    }
}

/// The order book's invariant: each order's id is its place, an order that
/// nobody holds is owned by its seller, and the places fit in 64 bits.
pub open spec fn orders_wf(orders: Seq<OrderView>) -> bool {
    &&& orders.len() <= u64::MAX
    &&& forall|i: int|
        0 <= i < orders.len() ==> {
            &&& (#[trigger] orders[i]).order_id == i
            &&& (!orders[i].fulfilled ==> orders[i].owner == orders[i].seller)
        }
}

/// The tokens held in escrow by all orders together.
pub open spec fn escrow(orders: Seq<OrderView>) -> nat
    decreases orders.len(),
{
    if orders.len() == 0 {
        0
    } else {
        escrow(orders.drop_last()) + orders.last().escrowed()
    }
}

/// Changing one order changes the escrow by what that order gains or loses.
pub proof fn lemma_escrow_update(orders: Seq<OrderView>, i: int, order: OrderView)
    requires
        0 <= i < orders.len(),
    ensures
        escrow(orders.update(i, order)) == escrow(orders) - orders[i].escrowed() + order.escrowed(),
    decreases orders.len(),
{
    let u = orders.update(i, order);
    if i == orders.len() - 1 {
        assert(u.drop_last() =~= orders.drop_last());
    } else {
        lemma_escrow_update(orders.drop_last(), i, order);
        assert(u.drop_last() =~= orders.drop_last().update(i, order));
    }
}

/// A new order adds what it holds to the escrow.
pub proof fn lemma_escrow_push(orders: Seq<OrderView>, order: OrderView)
    ensures
        escrow(orders.push(order)) == escrow(orders) + order.escrowed(),
{
    assert(orders.push(order).drop_last() =~= orders);
}

/// A second list with the same orders.
pub fn copy_orders(orders: &Vec<Order>) -> (copy: Vec<Order>)
    ensures
        copy.deep_view() == orders.deep_view(),
{
    let mut copy: Vec<Order> = Vec::new();
    let mut i: usize = 0;
    while i < orders.len()
        invariant
            i <= orders.len(),
            copy.len() == i,
            forall|j: int| 0 <= j < i ==> (#[trigger] copy@[j])@ == orders@[j]@,
        decreases orders.len() - i,
    {
        copy.push(orders[i].copy());
        i = i + 1;
    }
    assert(copy.deep_view() =~= orders.deep_view());
    copy
}

/// Whether `orders` can be an order book: checks the book's invariant.
pub fn orders_valid(orders: &Vec<Order>) -> (valid: bool)
    ensures
        valid == orders_wf(orders.deep_view()),
{
    let mut i: usize = 0;
    while i < orders.len()
        invariant
            i <= orders.len(),
            forall|j: int|
                0 <= j < i ==> {
                    &&& (#[trigger] orders.deep_view()[j]).order_id == j
                    &&& (!orders.deep_view()[j].fulfilled ==> orders.deep_view()[j].owner
                        == orders.deep_view()[j].seller)
                },
        decreases orders.len() - i,
    {
        let order = &orders[i];
        assert(orders.deep_view()[i as int] == order@);
        if order.order_id != i as u64 {
            return false;
        }
        if !order.fulfilled && !order.owner.same(&order.seller) {
            return false;
        }
        i = i + 1;
    }
    true
}

} // verus!
