//! The market as a mathematical state, and each call as a function on it.

use vstd::prelude::*;
use crate::book::Book;
use crate::error::MarketError;
use crate::order::OrderView;
use crate::order::orders_wf;
use crate::order::escrow;
use crate::table::amount;
use crate::table::distinct_keys;
use crate::table::lookup;
use crate::table::put;
use crate::table::total;

verus! {

/// The first sensor that the market accepts from the start.
pub open spec fn first_sensor() -> Seq<u8> {
    seq![
        0xb8u8, 0x71u8, 0x5fu8, 0xb9u8, 0x8fu8, 0xebu8, 0x70u8, 0xc3u8,
        0xf3u8, 0xf1u8, 0xb0u8, 0x11u8, 0x74u8, 0x57u8, 0x7bu8, 0xbdu8,
        0xbfu8, 0x7fu8, 0xe3u8, 0x28u8, 0x92u8, 0x84u8, 0x6au8, 0xaau8,
        0xd9u8, 0x67u8, 0x76u8, 0xfbu8, 0x58u8, 0x27u8, 0x02u8, 0x16u8,
    ]
}

/// The second sensor that the market accepts from the start.
pub open spec fn second_sensor() -> Seq<u8> {
    seq![
        0x21u8, 0x05u8, 0x74u8, 0x2fu8, 0x5au8, 0xdbu8, 0x22u8, 0x9du8,
        0xd4u8, 0xbeu8, 0x38u8, 0x98u8, 0x31u8, 0x4fu8, 0xddu8, 0x0fu8,
        0x0du8, 0xd3u8, 0x5eu8, 0xfbu8, 0xf0u8, 0xa5u8, 0x72u8, 0x4cu8,
        0xc7u8, 0xd5u8, 0xa1u8, 0x7eu8, 0xeeu8, 0x9au8, 0xfdu8, 0x1fu8,
    ]
}

/// The unit price that the market starts from.
pub const INITIAL_MARKET_PRICE: u64 = 10;

/// Everything the market remembers between calls.
pub struct Ledger {
    /// The sensors whose attestations count, 32 bytes each.
    pub verified_sensors: Seq<Seq<u8>>,
    /// The host's clock as of the last call that read it.
    pub latest_timestamp: u64,
    /// The price of one token in the last sale.
    pub creds_market_price: u64,
    /// All orders ever listed, by id.
    pub order_array: Seq<OrderView>,
    /// Spendable tokens per identity.
    pub balances: Seq<(Seq<u8>, u64)>,
    /// Tokens that brands have consumed, per brand.
    pub rec_balances: Seq<(Seq<u8>, u64)>,
    /// Who has registered as a brand.
    pub is_brand: Seq<(Seq<u8>, bool)>,
    /// Whether a sensor check has ever succeeded.
    pub is_verified: bool,
    /// The producer behind each sensor code.
    pub gen_station_to_address: Seq<(Seq<u8>, Seq<u8>)>,
    /// The promotion secret of each identity that stored one.
    pub address_to_promotion_secret: Seq<(Seq<u8>, Seq<u8>)>,
    /// The promotion secrets that each seller has earned, oldest first.
    pub address_to_eligible_promotions: Seq<(Seq<u8>, Seq<Seq<u8>>)>,
}

impl Ledger {
    /// The market before anything was stored.
    pub open spec fn empty() -> Ledger {
        Ledger {
            verified_sensors: Seq::empty(),
            latest_timestamp: 0,
            creds_market_price: 0,
            order_array: Seq::empty(),
            balances: Seq::empty(),
            rec_balances: Seq::empty(),
            is_brand: Seq::empty(),
            is_verified: false,
            gen_station_to_address: Seq::empty(),
            address_to_promotion_secret: Seq::empty(),
            address_to_eligible_promotions: Seq::empty(),
        }
    }

    /// The market's invariant: the order book's, and distinct keys in each table.
    pub open spec fn wf(self) -> bool {
        &&& orders_wf(self.order_array)
        &&& distinct_keys(self.balances)
        &&& distinct_keys(self.rec_balances)
        &&& distinct_keys(self.is_brand)
        &&& distinct_keys(self.gen_station_to_address)
        &&& distinct_keys(self.address_to_promotion_secret)
        &&& distinct_keys(self.address_to_eligible_promotions)
    }

    /// The orders with the spendable balances.
    pub open spec fn book(self) -> Book {
        Book { orders: self.order_array, balances: self.balances }
    }

    /// The spendable tokens of `who`.
    pub open spec fn balance(self, who: Seq<u8>) -> u64 {
        amount(self.balances, who)
    }

    /// The tokens that the brand `who` has consumed.
    pub open spec fn rec_balance(self, who: Seq<u8>) -> u64 {
        amount(self.rec_balances, who)
    }

    /// Whether `who` has registered as a brand.
    pub open spec fn brand(self, who: Seq<u8>) -> bool {
        lookup(self.is_brand, who) == Some(true)
    }

    /// The promotion secrets that `seller` has earned, oldest first.
    pub open spec fn promotions(self, seller: Seq<u8>) -> Seq<Seq<u8>> {
        match lookup(self.address_to_eligible_promotions, seller) {
            Some(queue) => queue,
            None => Seq::empty(),
        }
    }

    /// Whether `code` is one of the verified sensors.
    pub open spec fn sensor_known(self, code: Seq<u8>) -> bool {
        self.verified_sensors.contains(code)
    }

    /// All tokens there are: spendable, consumed, and held in escrow by orders
    /// that nobody holds.
    pub open spec fn supply(self) -> nat {
        total(self.balances) + total(self.rec_balances) + escrow(self.order_array)
    }

    /// Seeds the sensors, zeroes the clock and sets the starting price.
    pub open spec fn init(self) -> Ledger {
        Ledger {
            verified_sensors: seq![first_sensor(), second_sensor()],
            latest_timestamp: 0,
            creds_market_price: INITIAL_MARKET_PRICE,
            ..self
        }
    }

    /// Stores `secret` as the promotion secret of `invoker`.
    pub open spec fn add_promotion_secret(self, invoker: Seq<u8>, secret: Seq<u8>) -> Ledger {
        Ledger {
            address_to_promotion_secret: put(self.address_to_promotion_secret, invoker, secret),
            ..self
        }
    }

    /// Marks `invoker` as a brand.
    pub open spec fn register_as_brand(self, invoker: Seq<u8>) -> Ledger {
        Ledger { is_brand: put(self.is_brand, invoker, true), ..self }
    }

    /// Adds `secret` at the end of what `seller` has earned.
    pub open spec fn add_eligible_promotions(self, seller: Seq<u8>, secret: Seq<u8>) -> Ledger {
        Ledger {
            address_to_eligible_promotions: put(
                self.address_to_eligible_promotions,
                seller,
                self.promotions(seller).push(secret),
            ),
            ..self
        }
    }

    /// Makes `invoker` the producer behind `code`, whoever was before.
    pub open spec fn add_gen_station(self, invoker: Seq<u8>, code: Seq<u8>) -> Ledger {
        Ledger {
            gen_station_to_address: put(self.gen_station_to_address, code, invoker),
            ..self
        }
    }

    /// Sets the clock to `now`.
    pub open spec fn update_time(self, now: u64) -> Ledger {
        Ledger { latest_timestamp: now, ..self }
    }

    /// Sets the clock to `now` and sweeps the order book.
    pub open spec fn check_expired_options(self, now: u64) -> Result<Ledger, MarketError> {
        match self.book().sweep(now) {
            Ok(book) => Ok(
                Ledger {
                    latest_timestamp: now,
                    order_array: book.orders,
                    balances: book.balances,
                    ..self
                },
            ),
            Err(e) => Err(e),
        }
    }

    /// Ends the option on the order `order_id`, whatever the clock says.
    pub open spec fn end_option(self, order_id: u64) -> Result<Ledger, MarketError> {
        match self.book().end_option(order_id as int) {
            Ok(book) => Ok(Ledger { order_array: book.orders, balances: book.balances, ..self }),
            Err(e) => Err(e),
        }
    }

    /// After the sweep, sets the balance of the producer behind `code` to
    /// `new_value`.
    pub open spec fn update_hm_token_balance(self, now: u64, code: Seq<u8>, new_value: u64) -> Result<
        Ledger,
        MarketError,
    > {
        match self.check_expired_options(now) {
            Err(e) => Err(e),
            Ok(swept) => match lookup(swept.gen_station_to_address, code) {
                None => Err(MarketError::MissingPrerequisite),
                Some(producer) => Ok(
                    Ledger { balances: put(swept.balances, producer, new_value), ..swept },
                ),
            },
        }
    }

    /// After the sweep, takes `value` tokens from the balance of `user`.
    pub open spec fn redeem_tokens(self, now: u64, value: u64, user: Seq<u8>) -> Result<
        Ledger,
        MarketError,
    > {
        match self.check_expired_options(now) {
            Err(e) => Err(e),
            Ok(swept) => if swept.balance(user) < value {
                Err(MarketError::InsufficientBalance)
            } else {
                Ok(
                    Ledger {
                        balances: put(swept.balances, user, (swept.balance(user) - value) as u64),
                        ..swept
                    },
                )
            },
        }
    }

    /// After the sweep, lists `no_of_hm_tokens` tokens of `invoker` as a new
    /// order and takes them from the balance into escrow.
    pub open spec fn list_order(
        self,
        invoker: Seq<u8>,
        now: u64,
        sell_price: u64,
        no_of_hm_tokens: u64,
        option_price: u64,
        duration: u64,
    ) -> Result<Ledger, MarketError> {
        match self.check_expired_options(now) {
            Err(e) => Err(e),
            Ok(swept) => if swept.balance(invoker) < no_of_hm_tokens {
                Err(MarketError::InsufficientBalance)
            } else if swept.order_array.len() >= u64::MAX {
                Err(MarketError::Overflow)
            } else {
                Ok(
                    Ledger {
                        order_array: swept.order_array.push(
                            OrderView::listed(
                                invoker,
                                swept.order_array.len() as u64,
                                sell_price,
                                no_of_hm_tokens,
                                option_price,
                                duration,
                                now,
                            ),
                        ),
                        balances: put(
                            swept.balances,
                            invoker,
                            (swept.balance(invoker) - no_of_hm_tokens) as u64,
                        ),
                        ..swept
                    },
                )
            },
        }
    }

    /// After the sweep, sells the order `order_id` to `invoker` outright.
    pub open spec fn create_buy_order(
        self,
        invoker: Seq<u8>,
        now: u64,
        payment: u64,
        order_id: u64,
    ) -> Result<Ledger, MarketError> {
        match self.check_expired_options(now) {
            Err(e) => Err(e),
            Ok(swept) => if order_id >= swept.order_array.len() {
                Err(MarketError::OrderOutOfRange)
            } else {
                let order = swept.order_array[order_id as int];
                if order.fulfilled {
                    Err(MarketError::AlreadyFulfilled)
                } else if payment < order.sell_price {
                    Err(MarketError::InsufficientPayment)
                } else if order.no_of_hm_tokens == 0 {
                    Err(MarketError::EmptyOrder)
                } else if swept.balance(invoker) + order.no_of_hm_tokens > u64::MAX {
                    Err(MarketError::Overflow)
                } else {
                    Ok(
                        Ledger {
                            order_array: swept.order_array.update(
                                order_id as int,
                                order.sold_to(invoker),
                            ),
                            balances: put(
                                swept.balances,
                                invoker,
                                (swept.balance(invoker) + order.no_of_hm_tokens) as u64,
                            ),
                            creds_market_price: order.unit_price(),
                            ..swept
                        },
                    )
                }
            },
        }
    }

    /// After the sweep, gives `invoker` the option on the order `order_id`.
    pub open spec fn take_on_option(
        self,
        invoker: Seq<u8>,
        now: u64,
        payment: u64,
        order_id: u64,
    ) -> Result<Ledger, MarketError> {
        match self.check_expired_options(now) {
            Err(e) => Err(e),
            Ok(swept) => if order_id >= swept.order_array.len() {
                Err(MarketError::OrderOutOfRange)
            } else {
                let order = swept.order_array[order_id as int];
                if order.fulfilled {
                    Err(MarketError::AlreadyFulfilled)
                } else if payment < order.option_fee {
                    Err(MarketError::InsufficientPayment)
                } else if swept.balance(invoker) + order.no_of_hm_tokens > u64::MAX {
                    Err(MarketError::Overflow)
                } else {
                    Ok(
                        Ledger {
                            order_array: swept.order_array.update(
                                order_id as int,
                                order.taken_by(invoker, now),
                            ),
                            balances: put(
                                swept.balances,
                                invoker,
                                (swept.balance(invoker) + order.no_of_hm_tokens) as u64,
                            ),
                            ..swept
                        },
                    )
                }
            },
        }
    }

    /// After the sweep, lets the brand `invoker` consume the order `order_id`:
    /// the tokens count as consumed by the brand, and the seller earns the
    /// brand's promotion secret.
    pub open spec fn consume_token(
        self,
        invoker: Seq<u8>,
        now: u64,
        payment: u64,
        order_id: u64,
    ) -> Result<Ledger, MarketError> {
        match self.check_expired_options(now) {
            Err(e) => Err(e),
            Ok(swept) => if order_id >= swept.order_array.len() {
                Err(MarketError::OrderOutOfRange)
            } else {
                let order = swept.order_array[order_id as int];
                if order.fulfilled {
                    Err(MarketError::AlreadyFulfilled)
                } else if payment < order.sell_price {
                    Err(MarketError::InsufficientPayment)
                } else if !swept.brand(invoker) {
                    Err(MarketError::Permission)
                } else if lookup(swept.address_to_promotion_secret, invoker) is None {
                    Err(MarketError::MissingPrerequisite)
                } else if order.no_of_hm_tokens == 0 {
                    Err(MarketError::EmptyOrder)
                } else if swept.rec_balance(invoker) + order.no_of_hm_tokens > u64::MAX {
                    Err(MarketError::Overflow)
                } else {
                    Ok(
                        Ledger {
                            order_array: swept.order_array.update(
                                order_id as int,
                                order.sold_to(invoker),
                            ),
                            rec_balances: put(
                                swept.rec_balances,
                                invoker,
                                (swept.rec_balance(invoker) + order.no_of_hm_tokens) as u64,
                            ),
                            creds_market_price: order.unit_price(),
                            ..swept
                        }.add_eligible_promotions(
                            order.seller,
                            lookup(swept.address_to_promotion_secret, invoker)->Some_0,
                        ),
                    )
                }
            },
        }
    }

    /// Notes that a sensor check has succeeded, if `code` is a verified sensor.
    pub open spec fn check_verified_sensors(self, code: Seq<u8>) -> Ledger {
        if self.sensor_known(code) {
            Ledger { is_verified: true, ..self }
        } else {
            self
        }
    }
}

} // verus!
