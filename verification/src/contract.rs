//! The market itself: its state, and the calls that read and change it.

use vstd::prelude::*;
use crate::book::end_option_in;
use crate::book::sweep_in;
use crate::book::lemma_end_option;
use crate::book::lemma_sweep_orders;
use crate::bytes::Address;
use crate::bytes::bytes_copy;
use crate::bytes::bytes_list_copy;
use crate::bytes::sensor_matches;
use crate::error::MarketError;
use crate::ledger::Ledger;
use crate::ledger::first_sensor;
use crate::ledger::second_sensor;
use crate::ledger::INITIAL_MARKET_PRICE;
use crate::order::Order;
use crate::order::OrderView;
use crate::order::copy_orders;
use crate::order::orders_valid;
use crate::table::Table;
use crate::table::lookup;

verus! {

/// What the host ledger tells the market with a call.
#[derive(Debug, PartialEq, Eq)]
pub struct Invocation {
    /// Who makes the call.
    pub invoker: Address,
    /// The host's clock, in seconds.
    pub timestamp: u64,
    /// How much of the host's own asset comes with the call.
    pub transferred_balance: u64,
}

/// A payment that the host is to make after a call.
#[derive(Debug, PartialEq, Eq)]
pub struct Transfer {
    /// Who is paid.
    pub to: Address,
    /// How much of the host's own asset.
    pub amount: u64,
}

/// The pieces of a market, as a host stores them between calls.
#[derive(Debug)]
pub struct Parts {
    pub verified_sensors: Vec<[u8; 32]>,
    pub latest_timestamp: u64,
    pub creds_market_price: u64,
    pub order_array: Vec<Order>,
    pub balances: Table<u64>,
    pub rec_balances: Table<u64>,
    pub is_brand: Table<bool>,
    pub is_verified: bool,
    pub gen_station_to_address: Table<Address>,
    pub address_to_promotion_secret: Table<Vec<u8>>,
    pub address_to_eligible_promotions: Table<Vec<Vec<u8>>>,
}

impl View for Parts {
    type V = Ledger;

    open spec fn view(&self) -> Ledger {
        Ledger {
            verified_sensors: Seq::new(
                self.verified_sensors@.len(),
                |i: int| self.verified_sensors@[i]@,
            ),
            latest_timestamp: self.latest_timestamp,
            creds_market_price: self.creds_market_price,
            order_array: self.order_array.deep_view(),
            balances: self.balances@,
            rec_balances: self.rec_balances@,
            is_brand: self.is_brand@,
            is_verified: self.is_verified,
            gen_station_to_address: self.gen_station_to_address@,
            address_to_promotion_secret: self.address_to_promotion_secret@,
            address_to_eligible_promotions: self.address_to_eligible_promotions@,
        }
    }
}

/// The market: the order book, the balances and the roles.
#[derive(Debug)]
pub struct Contract {
    verified_sensors: Vec<[u8; 32]>,
    latest_timestamp: u64,
    creds_market_price: u64,
    order_array: Vec<Order>,
    balances: Table<u64>,
    rec_balances: Table<u64>,
    is_brand: Table<bool>,
    is_verified: bool,
    gen_station_to_address: Table<Address>,
    address_to_promotion_secret: Table<Vec<u8>>,
    address_to_eligible_promotions: Table<Vec<Vec<u8>>>,
}

impl View for Contract {
    type V = Ledger;

    closed spec fn view(&self) -> Ledger {
        Ledger {
            verified_sensors: Seq::new(
                self.verified_sensors@.len(),
                |i: int| self.verified_sensors@[i]@,
            ),
            latest_timestamp: self.latest_timestamp,
            creds_market_price: self.creds_market_price,
            order_array: self.order_array.deep_view(),
            balances: self.balances@,
            rec_balances: self.rec_balances@,
            is_brand: self.is_brand@,
            is_verified: self.is_verified,
            gen_station_to_address: self.gen_station_to_address@,
            address_to_promotion_secret: self.address_to_promotion_secret@,
            address_to_eligible_promotions: self.address_to_eligible_promotions@,
        }
    }
}

impl Contract {
    /// The market's invariant.
    pub open spec fn wf(&self) -> bool {
        self@.wf()
    }

    /// A market in which nothing has been stored yet.
    pub fn new() -> (market: Contract)
        ensures
            market@ == Ledger::empty(),
            market.wf(),
    {
        let market = Contract {
            verified_sensors: Vec::new(),
            latest_timestamp: 0,
            creds_market_price: 0,
            order_array: Vec::new(),
            balances: Table::new(),
            rec_balances: Table::new(),
            is_brand: Table::new(),
            is_verified: false,
            gen_station_to_address: Table::new(),
            address_to_promotion_secret: Table::new(),
            address_to_eligible_promotions: Table::new(),
        };
        assert(market@.verified_sensors =~= Seq::empty());
        assert(market@.order_array =~= Seq::empty());
        market
    }

    /// The market made of `parts`, if their orders can be an order book: each
    /// order's id its place, and each order that nobody holds owned by its
    /// seller.
    pub fn from_parts(parts: Parts) -> (market: Option<Contract>)
        requires
            parts.balances.wf(),
            parts.rec_balances.wf(),
            parts.is_brand.wf(),
            parts.gen_station_to_address.wf(),
            parts.address_to_promotion_secret.wf(),
            parts.address_to_eligible_promotions.wf(),
        ensures
            market is Some <==> parts@.wf(),
            market matches Some(m) ==> m@ == parts@ && m.wf(),
    {
        if !orders_valid(&parts.order_array) {
            return None;
        }
        Some(
            Contract {
                verified_sensors: parts.verified_sensors,
                latest_timestamp: parts.latest_timestamp,
                creds_market_price: parts.creds_market_price,
                order_array: parts.order_array,
                balances: parts.balances,
                rec_balances: parts.rec_balances,
                is_brand: parts.is_brand,
                is_verified: parts.is_verified,
                gen_station_to_address: parts.gen_station_to_address,
                address_to_promotion_secret: parts.address_to_promotion_secret,
                address_to_eligible_promotions: parts.address_to_eligible_promotions,
            },
        )
    }

    /// The market's pieces, for a host to store.
    pub fn into_parts(self) -> (parts: Parts)
        ensures
            parts@ == self@,
    {
        Parts {
            verified_sensors: self.verified_sensors,
            latest_timestamp: self.latest_timestamp,
            creds_market_price: self.creds_market_price,
            order_array: self.order_array,
            balances: self.balances,
            rec_balances: self.rec_balances,
            is_brand: self.is_brand,
            is_verified: self.is_verified,
            gen_station_to_address: self.gen_station_to_address,
            address_to_promotion_secret: self.address_to_promotion_secret,
            address_to_eligible_promotions: self.address_to_eligible_promotions,
        }
    }

    /// The host's clock as of the last call that read it.
    pub fn latest_timestamp(&self) -> (seconds: u64)
        ensures
            seconds == self@.latest_timestamp,
    {
        self.latest_timestamp
    }

    /// The price of one token in the last sale.
    pub fn creds_market_price(&self) -> (price: u64)
        ensures
            price == self@.creds_market_price,
    {
        self.creds_market_price
    }

    /// The order with the id `order_id`, if there is one.
    pub fn order(&self, order_id: u64) -> (order: Option<Order>)
        ensures
            order is Some <==> order_id < self@.order_array.len(),
            order matches Some(o) ==> o@ == self@.order_array[order_id as int],
    {
        if order_id >= self.order_array.len() as u64 {
            return None;
        }
        assert(self.order_array.deep_view()[order_id as int] == self.order_array@[order_id as int]@);
        Some(self.order_array[order_id as usize].copy())
    }

    /// The spendable tokens of `who`; zero for one who never held any.
    pub fn balance_of(&self, who: &Address) -> (tokens: u64)
        requires
            self.wf(),
        ensures
            tokens == self@.balance(who@),
    {
        self.balances.amount(&who.bytes)
    }

    /// The tokens that the brand `who` has consumed.
    pub fn rec_balance_of(&self, who: &Address) -> (tokens: u64)
        requires
            self.wf(),
        ensures
            tokens == self@.rec_balance(who@),
    {
        self.rec_balances.amount(&who.bytes)
    }

    /// Seeds the two verified sensors, zeroes the clock and sets the market
    /// price to its starting value.
    pub fn init(&mut self)
        ensures
            final(self)@ == old(self)@.init(),
    {
        let first: [u8; 32] = [
            0xb8, 0x71, 0x5f, 0xb9, 0x8f, 0xeb, 0x70, 0xc3, 0xf3, 0xf1, 0xb0, 0x11, 0x74, 0x57,
            0x7b, 0xbd, 0xbf, 0x7f, 0xe3, 0x28, 0x92, 0x84, 0x6a, 0xaa, 0xd9, 0x67, 0x76, 0xfb,
            0x58, 0x27, 0x02, 0x16,
        ];
        let second: [u8; 32] = [
            0x21, 0x05, 0x74, 0x2f, 0x5a, 0xdb, 0x22, 0x9d, 0xd4, 0xbe, 0x38, 0x98, 0x31, 0x4f,
            0xdd, 0x0f, 0x0d, 0xd3, 0x5e, 0xfb, 0xf0, 0xa5, 0x72, 0x4c, 0xc7, 0xd5, 0xa1, 0x7e,
            0xee, 0x9a, 0xfd, 0x1f,
        ];
        assert(first@ =~= first_sensor());
        assert(second@ =~= second_sensor());
        let mut sensors: Vec<[u8; 32]> = Vec::new();
        sensors.push(first);
        sensors.push(second);
        self.verified_sensors = sensors;
        self.latest_timestamp = 0;
        self.creds_market_price = INITIAL_MARKET_PRICE;
        assert(self@.verified_sensors =~= seq![first_sensor(), second_sensor()]);
    }

    /// Stores `promotion_secret` as the caller's, in place of an earlier one.
    pub fn add_promotion_secret(&mut self, call: &Invocation, promotion_secret: Vec<u8>)
        requires
            old(self).wf(),
        ensures
            final(self)@ == old(self)@.add_promotion_secret(call.invoker@, promotion_secret@),
            final(self).wf(),
    {
        assert(promotion_secret.deep_view() =~= promotion_secret@);
        self.address_to_promotion_secret.set(bytes_copy(&call.invoker.bytes), promotion_secret);
    }

    /// Marks the caller as a brand.
    pub fn register_as_brand(&mut self, call: &Invocation)
        requires
            old(self).wf(),
        ensures
            final(self)@ == old(self)@.register_as_brand(call.invoker@),
            final(self).wf(),
    {
        self.is_brand.set(bytes_copy(&call.invoker.bytes), true);
    }

    /// The promotion secrets that `seller` has earned, oldest first; none for a
    /// seller who earned none.
    pub fn get_all_eligible_promotions(&self, seller: &Address) -> (queue: Vec<Vec<u8>>)
        requires
            self.wf(),
        ensures
            queue.deep_view() == self@.promotions(seller@),
    {
        match self.address_to_eligible_promotions.get(&seller.bytes) {
            Some(queue) => bytes_list_copy(queue),
            None => {
                let queue: Vec<Vec<u8>> = Vec::new();
                assert(queue.deep_view() =~= Seq::<Seq<u8>>::empty());
                queue
            },
        }
    }

    /// Adds `promotion_secret` at the end of what `seller` has earned.
    pub fn add_eligible_promotions(&mut self, seller: &Address, promotion_secret: Vec<u8>)
        requires
            old(self).wf(),
        ensures
            final(self)@ == old(self)@.add_eligible_promotions(seller@, promotion_secret@),
            final(self).wf(),
    {
        let mut queue = self.get_all_eligible_promotions(seller);
        assert(promotion_secret.deep_view() =~= promotion_secret@);
        let ghost before = queue.deep_view();
        queue.push(promotion_secret);
        assert(queue.deep_view() =~= before.push(promotion_secret@));
        self.address_to_eligible_promotions.set(bytes_copy(&seller.bytes), queue);
    }

    /// Makes the caller the producer behind the sensor code `code`, whoever
    /// claimed it before.
    pub fn add_gen_station(&mut self, call: &Invocation, code: Vec<u8>)
        requires
            old(self).wf(),
        ensures
            final(self)@ == old(self)@.add_gen_station(call.invoker@, code@),
            final(self).wf(),
    {
        self.gen_station_to_address.set(code, call.invoker.copy());
    }

    /// How many orders were ever listed.
    pub fn return_orders_array_length(&self) -> (count: u64)
        ensures
            count == self@.order_array.len(),
    {
        self.order_array.len() as u64
    }

    /// The caller's spendable tokens; zero for a caller who never held any.
    pub fn return_hm_balance(&self, call: &Invocation) -> (tokens: u64)
        requires
            self.wf(),
        ensures
            tokens == self@.balance(call.invoker@),
    {
        self.balances.amount(&call.invoker.bytes)
    }

    /// Sets the clock to the host's.
    pub fn update_time(&mut self, call: &Invocation)
        ensures
            final(self)@ == old(self)@.update_time(call.timestamp),
    {
        self.latest_timestamp = call.timestamp;
    }

    /// Whether a sensor check has ever succeeded.
    pub fn is_verified(&self) -> (verified: bool)
        ensures
            verified == self@.is_verified,
    {
        self.is_verified
    }

    /// Whether `address` has registered as a brand.
    pub fn is_brand(&self, address: &Address) -> (brand: bool)
        requires
            self.wf(),
        ensures
            brand == self@.brand(address@),
    {
        match self.is_brand.get(&address.bytes) {
            Some(flag) => *flag,
            None => false,
        }
    }

    /// Whether `code` is one of the verified sensors. A check that succeeds is
    /// remembered: from then on the market counts as verified.
    pub fn check_verified_sensors(&mut self, code: &Vec<u8>) -> (known: bool)
        ensures
            known == old(self)@.sensor_known(code@),
            final(self)@ == old(self)@.check_verified_sensors(code@),
    {
        let mut i: usize = 0;
        while i < self.verified_sensors.len()
            invariant
                i <= self.verified_sensors.len(),
                *self == *old(self),
                forall|j: int| 0 <= j < i ==> self@.verified_sensors[j] != code@,
            decreases self.verified_sensors.len() - i,
        {
            if sensor_matches(&self.verified_sensors[i], code) {
                assert(self@.verified_sensors[i as int] == code@);
                self.is_verified = true;
                return true;
            }
            i = i + 1;
        }
        false
    }

    /// Sets the clock to the host's and ends the option of every order whose
    /// window lies before it, in the order of their ids. Fails, and changes
    /// nothing, where an owner no longer holds the tokens to give back.
    pub fn check_expired_options(&mut self, call: &Invocation) -> (done: Result<(), MarketError>)
        requires
            old(self).wf(),
        ensures
            final(self).wf(),
            match old(self)@.check_expired_options(call.timestamp) {
                Ok(next) => done is Ok && final(self)@ == next,
                Err(e) => done == Err::<(), MarketError>(e) && *final(self) == *old(self),
            },
    {
        let mut orders = copy_orders(&self.order_array);
        let mut balances = self.balances.duplicate();
        match sweep_in(&mut orders, &mut balances, call.timestamp) {
            Ok(()) => {},
            Err(e) => {
                return Err(e);
            },
        }
        proof {
            lemma_sweep_orders(self@.book(), call.timestamp, 0);
        }
        self.latest_timestamp = call.timestamp;
        self.order_array = orders;
        self.balances = balances;
        Ok(())
    }

    /// Ends the option on the order `order_id`, whatever the clock says: its
    /// tokens are taken back from the owner's balance, and the order returns to
    /// its seller, open again. Refused where there is no such order, or where
    /// the owner holds fewer tokens than the order.
    pub fn end_option(&mut self, order_id: u64) -> (done: Result<(), MarketError>)
        requires
            old(self).wf(),
        ensures
            final(self).wf(),
            match old(self)@.end_option(order_id) {
                Ok(next) => done is Ok && final(self)@ == next,
                Err(e) => done == Err::<(), MarketError>(e) && *final(self) == *old(self),
            },
    {
        proof {
            if self@.book().end_option(order_id as int) is Ok {
                lemma_end_option(self@.book(), order_id as int);
            }
        }
        end_option_in(&mut self.order_array, &mut self.balances, order_id)
    }

    /// The oracle's word on a producer: after the sweep, the balance of the
    /// producer behind `code` is set to `new_value`. Refused where the sweep
    /// fails, or where nobody has claimed `code`.
    pub fn update_hm_token_balance(&mut self, call: &Invocation, code: &Vec<u8>, new_value: u64) -> (done:
        Result<(), MarketError>)
        requires
            old(self).wf(),
        ensures
            final(self).wf(),
            match old(self)@.update_hm_token_balance(call.timestamp, code@, new_value) {
                Ok(next) => done is Ok && final(self)@ == next,
                Err(e) => done == Err::<(), MarketError>(e) && *final(self) == *old(self),
            },
    {
        let mut orders = copy_orders(&self.order_array);
        let mut balances = self.balances.duplicate();
        match sweep_in(&mut orders, &mut balances, call.timestamp) {
            Ok(()) => {},
            Err(e) => {
                return Err(e);
            },
        }
        proof {
            lemma_sweep_orders(self@.book(), call.timestamp, 0);
        }
        let producer = match self.gen_station_to_address.get(code) {
            Some(producer) => producer.copy(),
            None => {
                return Err(MarketError::MissingPrerequisite);
            },
        };
        balances.set(producer.bytes, new_value);
        self.latest_timestamp = call.timestamp;
        self.order_array = orders;
        self.balances = balances;
        Ok(())
    }

    /// After the sweep, takes `value` tokens from the balance of `user`.
    /// Refused where the sweep fails, or where `user` holds fewer.
    pub fn redeem_tokens(&mut self, call: &Invocation, value: u64, user: &Address) -> (done: Result<
        (),
        MarketError,
    >)
        requires
            old(self).wf(),
        ensures
            final(self).wf(),
            match old(self)@.redeem_tokens(call.timestamp, value, user@) {
                Ok(next) => done is Ok && final(self)@ == next,
                Err(e) => done == Err::<(), MarketError>(e) && *final(self) == *old(self),
            },
    {
        let mut orders = copy_orders(&self.order_array);
        let mut balances = self.balances.duplicate();
        match sweep_in(&mut orders, &mut balances, call.timestamp) {
            Ok(()) => {},
            Err(e) => {
                return Err(e);
            },
        }
        proof {
            lemma_sweep_orders(self@.book(), call.timestamp, 0);
        }
        let held: u64 = balances.amount(&user.bytes);
        if held < value {
            return Err(MarketError::InsufficientBalance);
        }
        balances.set(bytes_copy(&user.bytes), held - value);
        self.latest_timestamp = call.timestamp;
        self.order_array = orders;
        self.balances = balances;
        Ok(())
    }

    /// After the sweep, lists `no_of_hm_tokens` of the caller's tokens for
    /// `sell_price` in all, with an option on them for `option_price` that runs
    /// `duration` seconds. The tokens leave the caller's balance. Refused where
    /// the sweep fails, where the caller holds fewer tokens, or where the book
    /// has no id left.
    pub fn list_order(
        &mut self,
        call: &Invocation,
        sell_price: u64,
        no_of_hm_tokens: u64,
        option_price: u64,
        duration: u64,
    ) -> (done: Result<(), MarketError>)
        requires
            old(self).wf(),
        ensures
            final(self).wf(),
            match old(self)@.list_order(
                call.invoker@,
                call.timestamp,
                sell_price,
                no_of_hm_tokens,
                option_price,
                duration,
            ) {
                Ok(next) => done is Ok && final(self)@ == next,
                Err(e) => done == Err::<(), MarketError>(e) && *final(self) == *old(self),
            },
    {
        let mut orders = copy_orders(&self.order_array);
        let mut balances = self.balances.duplicate();
        match sweep_in(&mut orders, &mut balances, call.timestamp) {
            Ok(()) => {},
            Err(e) => {
                return Err(e);
            },
        }
        proof {
            lemma_sweep_orders(self@.book(), call.timestamp, 0);
        }
        let held: u64 = balances.amount(&call.invoker.bytes);
        if held < no_of_hm_tokens {
            return Err(MarketError::InsufficientBalance);
        }
        if orders.len() as u64 >= u64::MAX {
            return Err(MarketError::Overflow);
        }
        let ghost swept = orders.deep_view();
        let order = Order {
            seller: call.invoker.copy(),
            owner: call.invoker.copy(),
            order_id: orders.len() as u64,
            sell_price,
            is_buy: false,
            is_sale: true,
            is_option: true,
            option_fee: option_price,
            option_duration: duration,
            fulfilled: false,
            no_of_hm_tokens,
            created_at: call.timestamp,
        };
        orders.push(order);
        assert(orders.deep_view() =~= swept.push(
            OrderView::listed(
                call.invoker@,
                swept.len() as u64,
                sell_price,
                no_of_hm_tokens,
                option_price,
                duration,
                call.timestamp,
            ),
        ));
        balances.set(bytes_copy(&call.invoker.bytes), held - no_of_hm_tokens);
        self.latest_timestamp = call.timestamp;
        self.order_array = orders;
        self.balances = balances;
        Ok(())
    }

    /// After the sweep, sells the order `order_id` to the caller outright. The
    /// tokens go to the caller's balance, the market price becomes the order's
    /// unit price, and the whole of what came with the call is to be paid to
    /// the seller. Refused, for the first of these reasons that holds: the
    /// sweep fails; there is no such order; somebody holds it; less than its
    /// price came with the call; it has no tokens; the caller's balance would
    /// leave 64 bits.
    pub fn create_buy_order(&mut self, call: &Invocation, order_id: u64) -> (done: Result<
        Transfer,
        MarketError,
    >)
        requires
            old(self).wf(),
        ensures
            final(self).wf(),
            match old(self)@.create_buy_order(
                call.invoker@,
                call.timestamp,
                call.transferred_balance,
                order_id,
            ) {
                Ok(next) => done is Ok && final(self)@ == next && done->Ok_0.to@
                    == next.order_array[order_id as int].seller && done->Ok_0.amount
                    == call.transferred_balance,
                Err(e) => done == Err::<Transfer, MarketError>(e) && *final(self) == *old(self),
            },
    {
        let mut orders = copy_orders(&self.order_array);
        let mut balances = self.balances.duplicate();
        match sweep_in(&mut orders, &mut balances, call.timestamp) {
            Ok(()) => {},
            Err(e) => {
                return Err(e);
            },
        }
        proof {
            lemma_sweep_orders(self@.book(), call.timestamp, 0);
        }
        if order_id >= orders.len() as u64 {
            return Err(MarketError::OrderOutOfRange);
        }
        let at: usize = order_id as usize;
        let ghost swept = orders.deep_view();
        assert(swept[at as int] == orders@[at as int]@);
        if orders[at].fulfilled {
            return Err(MarketError::AlreadyFulfilled);
        }
        if call.transferred_balance < orders[at].sell_price {
            return Err(MarketError::InsufficientPayment);
        }
        let tokens: u64 = orders[at].no_of_hm_tokens;
        if tokens == 0 {
            return Err(MarketError::EmptyOrder);
        }
        let held: u64 = balances.amount(&call.invoker.bytes);
        let credited: u64 = match held.checked_add(tokens) {
            Some(sum) => sum,
            None => {
                return Err(MarketError::Overflow);
            },
        };
        let price: u64 = orders[at].sell_price / tokens;
        let seller = orders[at].seller.copy();
        let mut order = orders[at].copy();
        order.owner = call.invoker.copy();
        order.fulfilled = true;
        order.option_duration = 0;
        orders.set(at, order);
        assert(orders.deep_view() =~= swept.update(at as int, swept[at as int].sold_to(call.invoker@)));
        balances.set(bytes_copy(&call.invoker.bytes), credited);
        self.latest_timestamp = call.timestamp;
        self.order_array = orders;
        self.balances = balances;
        self.creds_market_price = price;
        Ok(Transfer { to: seller, amount: call.transferred_balance })
    }

    /// After the sweep, gives the caller the option on the order `order_id`:
    /// the tokens go to the caller's balance at once, the option's window
    /// starts now, and the whole of what came with the call is to be paid to
    /// the seller. The market price stays. Refused, for the first of these
    /// reasons that holds: the sweep fails; there is no such order; somebody
    /// holds it; less than the option's fee came with the call; the caller's
    /// balance would leave 64 bits.
    pub fn take_on_option(&mut self, call: &Invocation, order_id: u64) -> (done: Result<
        Transfer,
        MarketError,
    >)
        requires
            old(self).wf(),
        ensures
            final(self).wf(),
            match old(self)@.take_on_option(
                call.invoker@,
                call.timestamp,
                call.transferred_balance,
                order_id,
            ) {
                Ok(next) => done is Ok && final(self)@ == next && done->Ok_0.to@
                    == next.order_array[order_id as int].seller && done->Ok_0.amount
                    == call.transferred_balance,
                Err(e) => done == Err::<Transfer, MarketError>(e) && *final(self) == *old(self),
            },
    {
        let mut orders = copy_orders(&self.order_array);
        let mut balances = self.balances.duplicate();
        match sweep_in(&mut orders, &mut balances, call.timestamp) {
            Ok(()) => {},
            Err(e) => {
                return Err(e);
            },
        }
        proof {
            lemma_sweep_orders(self@.book(), call.timestamp, 0);
        }
        if order_id >= orders.len() as u64 {
            return Err(MarketError::OrderOutOfRange);
        }
        let at: usize = order_id as usize;
        let ghost swept = orders.deep_view();
        assert(swept[at as int] == orders@[at as int]@);
        if orders[at].fulfilled {
            return Err(MarketError::AlreadyFulfilled);
        }
        if call.transferred_balance < orders[at].option_fee {
            return Err(MarketError::InsufficientPayment);
        }
        let held: u64 = balances.amount(&call.invoker.bytes);
        let credited: u64 = match held.checked_add(orders[at].no_of_hm_tokens) {
            Some(sum) => sum,
            None => {
                return Err(MarketError::Overflow);
            },
        };
        let seller = orders[at].seller.copy();
        let mut order = orders[at].copy();
        order.owner = call.invoker.copy();
        order.fulfilled = true;
        order.created_at = call.timestamp;
        orders.set(at, order);
        assert(orders.deep_view() =~= swept.update(
            at as int,
            swept[at as int].taken_by(call.invoker@, call.timestamp),
        ));
        balances.set(bytes_copy(&call.invoker.bytes), credited);
        self.latest_timestamp = call.timestamp;
        self.order_array = orders;
        self.balances = balances;
        Ok(Transfer { to: seller, amount: call.transferred_balance })
    }

    /// After the sweep, lets the caller, a brand, consume the order
    /// `order_id`: the tokens count as consumed by the brand, the seller earns
    /// the brand's promotion secret, the market price becomes the order's unit
    /// price, and the whole of what came with the call is to be paid to the
    /// seller. Refused, for the first of these reasons that holds: the sweep
    /// fails; there is no such order; somebody holds it; less than its price
    /// came with the call; the caller is no brand; the caller has stored no
    /// promotion secret; the order has no tokens; the brand's consumed tokens
    /// would leave 64 bits.
    pub fn consume_token(&mut self, call: &Invocation, order_id: u64) -> (done: Result<
        Transfer,
        MarketError,
    >)
        requires
            old(self).wf(),
        ensures
            final(self).wf(),
            match old(self)@.consume_token(
                call.invoker@,
                call.timestamp,
                call.transferred_balance,
                order_id,
            ) {
                Ok(next) => done is Ok && final(self)@ == next && done->Ok_0.to@
                    == next.order_array[order_id as int].seller && done->Ok_0.amount
                    == call.transferred_balance,
                Err(e) => done == Err::<Transfer, MarketError>(e) && *final(self) == *old(self),
            },
    {
        let mut orders = copy_orders(&self.order_array);
        let mut balances = self.balances.duplicate();
        match sweep_in(&mut orders, &mut balances, call.timestamp) {
            Ok(()) => {},
            Err(e) => {
                return Err(e);
            },
        }
        proof {
            lemma_sweep_orders(self@.book(), call.timestamp, 0);
        }
        if order_id >= orders.len() as u64 {
            return Err(MarketError::OrderOutOfRange);
        }
        let at: usize = order_id as usize;
        let ghost swept = orders.deep_view();
        assert(swept[at as int] == orders@[at as int]@);
        if orders[at].fulfilled {
            return Err(MarketError::AlreadyFulfilled);
        }
        if call.transferred_balance < orders[at].sell_price {
            return Err(MarketError::InsufficientPayment);
        }
        if !self.is_brand(&call.invoker) {
            return Err(MarketError::Permission);
        }
        let secret: Vec<u8> = match self.address_to_promotion_secret.get(&call.invoker.bytes) {
            Some(secret) => bytes_copy(secret),
            None => {
                return Err(MarketError::MissingPrerequisite);
            },
        };
        assert(secret@ =~= lookup(self@.address_to_promotion_secret, call.invoker@)->Some_0);
        let tokens: u64 = orders[at].no_of_hm_tokens;
        if tokens == 0 {
            return Err(MarketError::EmptyOrder);
        }
        let consumed: u64 = self.rec_balances.amount(&call.invoker.bytes);
        let credited: u64 = match consumed.checked_add(tokens) {
            Some(sum) => sum,
            None => {
                return Err(MarketError::Overflow);
            },
        };
        let price: u64 = orders[at].sell_price / tokens;
        let seller = orders[at].seller.copy();
        let mut order = orders[at].copy();
        order.owner = call.invoker.copy();
        order.fulfilled = true;
        order.option_duration = 0;
        orders.set(at, order);
        assert(orders.deep_view() =~= swept.update(at as int, swept[at as int].sold_to(call.invoker@)));
        self.rec_balances.set(bytes_copy(&call.invoker.bytes), credited);
        self.latest_timestamp = call.timestamp;
        self.order_array = orders;
        self.balances = balances;
        self.creds_market_price = price;
        self.add_eligible_promotions(&seller, secret);
        Ok(Transfer { to: seller, amount: call.transferred_balance })
    }
}

} // verus!
