use hm_market::bytes::{bytes_copy, bytes_eq, bytes_list_copy, sensor_matches, Address};
use hm_market::contract::{Contract, Invocation, Parts, Transfer};
use hm_market::error::MarketError;
use hm_market::order::{copy_orders, orders_valid, Order};
use hm_market::table::Table;

const FIRST_SENSOR: [u8; 32] = [
    0xb8, 0x71, 0x5f, 0xb9, 0x8f, 0xeb, 0x70, 0xc3, 0xf3, 0xf1, 0xb0, 0x11, 0x74, 0x57, 0x7b, 0xbd,
    0xbf, 0x7f, 0xe3, 0x28, 0x92, 0x84, 0x6a, 0xaa, 0xd9, 0x67, 0x76, 0xfb, 0x58, 0x27, 0x02, 0x16,
];

const SECOND_SENSOR: [u8; 32] = [
    0x21, 0x05, 0x74, 0x2f, 0x5a, 0xdb, 0x22, 0x9d, 0xd4, 0xbe, 0x38, 0x98, 0x31, 0x4f, 0xdd, 0x0f,
    0x0d, 0xd3, 0x5e, 0xfb, 0xf0, 0xa5, 0x72, 0x4c, 0xc7, 0xd5, 0xa1, 0x7e, 0xee, 0x9a, 0xfd, 0x1f,
];

fn who(name: &str) -> Address {
    Address::new(name.as_bytes().to_vec())
}

fn call(name: &str, timestamp: u64, transferred_balance: u64) -> Invocation {
    Invocation { invoker: who(name), timestamp, transferred_balance }
}

fn mint(market: &mut Contract, name: &str, tokens: u64) {
    market.add_gen_station(&call(name, 0, 0), name.as_bytes().to_vec());
    let now = market.latest_timestamp();
    market
        .update_hm_token_balance(&call("oracle", now, 0), &name.as_bytes().to_vec(), tokens)
        .unwrap();
}

fn market_with(name: &str, tokens: u64) -> Contract {
    let mut market = Contract::new();
    market.init();
    mint(&mut market, name, tokens);
    market
}

/// All tokens of the named accounts and of the orders that nobody holds.
fn supply(market: &Contract, names: &[&str]) -> u128 {
    let mut sum: u128 = 0;
    for name in names {
        sum += market.balance_of(&who(name)) as u128;
        sum += market.rec_balance_of(&who(name)) as u128;
    }
    for id in 0..market.return_orders_array_length() {
        let order = market.order(id).unwrap();
        if !order.fulfilled {
            sum += order.no_of_hm_tokens as u128;
        }
    }
    sum
}

#[test]
fn new_market_is_empty() {
    let market = Contract::new();
    assert_eq!(market.return_orders_array_length(), 0);
    assert_eq!(market.latest_timestamp(), 0);
    assert_eq!(market.creds_market_price(), 0);
    assert!(!market.is_verified());
    assert!(!market.is_brand(&who("anyone")));
    assert_eq!(market.balance_of(&who("anyone")), 0);
    assert_eq!(market.rec_balance_of(&who("anyone")), 0);
    assert!(market.order(0).is_none());
    assert!(market.get_all_eligible_promotions(&who("anyone")).is_empty());
}

#[test]
fn init_seeds_sensors_clock_and_price() {
    let mut market = Contract::new();
    market.update_time(&call("anyone", 77, 0));
    market.init();
    assert_eq!(market.latest_timestamp(), 0);
    assert_eq!(market.creds_market_price(), 10);
    let parts = market.into_parts();
    assert_eq!(parts.verified_sensors, vec![FIRST_SENSOR, SECOND_SENSOR]);
    assert!(!parts.is_verified);
}

#[test]
fn sensor_check_latches() {
    let mut market = Contract::new();
    assert!(!market.check_verified_sensors(&FIRST_SENSOR.to_vec()));
    market.init();
    assert!(!market.check_verified_sensors(&vec![0x01]));
    assert!(!market.check_verified_sensors(&FIRST_SENSOR[..31].to_vec()));
    let mut longer = SECOND_SENSOR.to_vec();
    longer.push(0);
    assert!(!market.check_verified_sensors(&longer));
    let mut other = FIRST_SENSOR.to_vec();
    other[31] ^= 1;
    assert!(!market.check_verified_sensors(&other));
    assert!(!market.is_verified());

    assert!(market.check_verified_sensors(&SECOND_SENSOR.to_vec()));
    assert!(market.is_verified());
    assert!(!market.check_verified_sensors(&vec![0x01]));
    assert!(market.is_verified());
    assert!(market.check_verified_sensors(&FIRST_SENSOR.to_vec()));
}

#[test]
fn brands_register_once_or_often() {
    let mut market = Contract::new();
    assert!(!market.is_brand(&who("carol")));
    market.register_as_brand(&call("carol", 0, 0));
    market.register_as_brand(&call("carol", 0, 0));
    assert!(market.is_brand(&who("carol")));
    assert!(!market.is_brand(&who("caro")));
    let parts = market.into_parts();
    assert_eq!(parts.is_brand.len(), 1);
    assert_eq!(parts.is_brand.get(&b"carol".to_vec()), Some(&true));
}

#[test]
fn promotion_secret_is_overwritten() {
    let mut market = market_with("alice", 10);
    market.register_as_brand(&call("carol", 0, 0));
    market.add_promotion_secret(&call("carol", 0, 0), vec![1]);
    market.add_promotion_secret(&call("carol", 0, 0), vec![2, 3]);
    market.list_order(&call("alice", 1, 0), 10, 5, 0, 0).unwrap();
    market.consume_token(&call("carol", 1, 10), 0).unwrap();
    assert_eq!(market.get_all_eligible_promotions(&who("alice")), vec![vec![2u8, 3]]);
}

#[test]
fn promotions_queue_in_order() {
    let mut market = Contract::new();
    market.add_eligible_promotions(&who("alice"), vec![1]);
    market.add_eligible_promotions(&who("bob"), vec![9]);
    market.add_eligible_promotions(&who("alice"), vec![]);
    market.add_eligible_promotions(&who("alice"), vec![1]);
    assert_eq!(
        market.get_all_eligible_promotions(&who("alice")),
        vec![vec![1u8], vec![], vec![1u8]]
    );
    assert_eq!(market.get_all_eligible_promotions(&who("bob")), vec![vec![9u8]]);
    assert!(market.get_all_eligible_promotions(&who("carol")).is_empty());
}

#[test]
fn sensor_code_goes_to_the_last_claimant() {
    let mut market = Contract::new();
    market.init();
    market.add_gen_station(&call("eve", 0, 0), vec![7]);
    market.add_gen_station(&call("mallory", 0, 0), vec![7]);
    market.update_hm_token_balance(&call("oracle", 1, 0), &vec![7], 30).unwrap();
    assert_eq!(market.balance_of(&who("eve")), 0);
    assert_eq!(market.balance_of(&who("mallory")), 30);
}

#[test]
fn unknown_sensor_code_is_refused() {
    let mut market = Contract::new();
    market.init();
    let refused = market.update_hm_token_balance(&call("oracle", 9, 0), &vec![7], 30);
    assert_eq!(refused, Err(MarketError::MissingPrerequisite));
    assert_eq!(market.latest_timestamp(), 0);
}

#[test]
fn listing_more_than_held_is_refused() {
    let mut market = market_with("alice", 10);
    let refused = market.list_order(&call("alice", 5, 0), 100, 11, 0, 60);
    assert_eq!(refused, Err(MarketError::InsufficientBalance));
    assert_eq!(market.return_orders_array_length(), 0);
    assert_eq!(market.balance_of(&who("alice")), 10);
    assert_eq!(market.latest_timestamp(), 0);
    market.list_order(&call("alice", 5, 0), 100, 10, 0, 60).unwrap();
    assert_eq!(market.balance_of(&who("alice")), 0);
}

#[test]
fn order_ids_are_positions() {
    let mut market = market_with("alice", 100);
    for id in 0..5u64 {
        market.list_order(&call("alice", 10 + id, 0), 10 * (id + 1), id + 1, 1, 1000).unwrap();
        assert_eq!(market.return_orders_array_length(), id + 1);
    }
    market.create_buy_order(&call("bob", 20, 1000), 3).unwrap();
    market.take_on_option(&call("bob", 21, 1), 1).unwrap();
    market.check_expired_options(&call("bob", 5000, 0)).unwrap();
    for id in 0..5u64 {
        assert_eq!(market.order(id).unwrap().order_id, id);
    }
    assert!(market.order(5).is_none());
}

#[test]
fn order_id_out_of_range_is_refused() {
    let mut market = market_with("alice", 100);
    market.list_order(&call("alice", 1, 0), 10, 5, 1, 100).unwrap();
    market.register_as_brand(&call("carol", 0, 0));
    market.add_promotion_secret(&call("carol", 0, 0), vec![1]);
    assert_eq!(
        market.create_buy_order(&call("bob", 2, 10), 1),
        Err(MarketError::OrderOutOfRange)
    );
    assert_eq!(market.take_on_option(&call("bob", 2, 10), 1), Err(MarketError::OrderOutOfRange));
    assert_eq!(
        market.consume_token(&call("carol", 2, 10), u64::MAX),
        Err(MarketError::OrderOutOfRange)
    );
    assert_eq!(market.end_option(1), Err(MarketError::OrderOutOfRange));
    assert_eq!(market.latest_timestamp(), 1);
}

#[test]
fn fulfilled_order_cannot_be_taken_again() {
    let mut market = market_with("alice", 100);
    market.list_order(&call("alice", 1, 0), 10, 5, 1, 100).unwrap();
    market.register_as_brand(&call("carol", 0, 0));
    market.add_promotion_secret(&call("carol", 0, 0), vec![1]);
    market.take_on_option(&call("bob", 2, 1), 0).unwrap();
    assert_eq!(
        market.create_buy_order(&call("dan", 3, 10), 0),
        Err(MarketError::AlreadyFulfilled)
    );
    assert_eq!(market.take_on_option(&call("dan", 3, 0), 0), Err(MarketError::AlreadyFulfilled));
    assert_eq!(market.consume_token(&call("carol", 3, 0), 0), Err(MarketError::AlreadyFulfilled));
    assert_eq!(market.order(0).unwrap().owner, who("bob"));
}

#[test]
fn option_fee_must_be_paid() {
    let mut market = market_with("alice", 100);
    market.list_order(&call("alice", 1, 0), 10, 5, 3, 100).unwrap();
    assert_eq!(
        market.take_on_option(&call("bob", 2, 2), 0),
        Err(MarketError::InsufficientPayment)
    );
    assert_eq!(market.balance_of(&who("bob")), 0);
    let paid = market.take_on_option(&call("bob", 2, 3), 0).unwrap();
    assert_eq!(paid.amount, 3);
}

#[test]
fn overpayment_goes_to_the_seller_in_full() {
    let mut market = market_with("alice", 100);
    market.list_order(&call("alice", 1, 0), 10, 5, 3, 100).unwrap();
    let paid = market.create_buy_order(&call("bob", 2, 25), 0).unwrap();
    assert_eq!(paid, Transfer { to: who("alice"), amount: 25 });
    assert_eq!(market.creds_market_price(), 2);
}

#[test]
fn market_price_rounds_down() {
    let mut market = market_with("alice", 100);
    market.list_order(&call("alice", 1, 0), 7, 2, 0, 100).unwrap();
    market.list_order(&call("alice", 1, 0), 3, 4, 0, 100).unwrap();
    market.create_buy_order(&call("bob", 2, 7), 0).unwrap();
    assert_eq!(market.creds_market_price(), 3);
    market.create_buy_order(&call("bob", 2, 3), 1).unwrap();
    assert_eq!(market.creds_market_price(), 0);
}

#[test]
fn taking_an_option_keeps_the_market_price() {
    let mut market = market_with("alice", 100);
    market.list_order(&call("alice", 1, 0), 700, 2, 0, 100).unwrap();
    market.take_on_option(&call("bob", 2, 0), 0).unwrap();
    assert_eq!(market.creds_market_price(), 10);
    market.check_expired_options(&call("bob", 200, 0)).unwrap();
    assert_eq!(market.creds_market_price(), 10);
}

#[test]
fn order_without_tokens_cannot_be_sold() {
    let mut market = market_with("alice", 100);
    market.register_as_brand(&call("carol", 0, 0));
    market.add_promotion_secret(&call("carol", 0, 0), vec![1]);
    market.list_order(&call("alice", 1, 0), 10, 0, 0, 0).unwrap();
    assert_eq!(market.create_buy_order(&call("bob", 2, 10), 0), Err(MarketError::EmptyOrder));
    assert_eq!(market.consume_token(&call("carol", 2, 10), 0), Err(MarketError::EmptyOrder));
    assert!(!market.order(0).unwrap().fulfilled);
    market.take_on_option(&call("bob", 2, 0), 0).unwrap();
    assert!(market.order(0).unwrap().fulfilled);
}

#[test]
fn brand_without_secret_cannot_consume() {
    let mut market = market_with("alice", 100);
    market.register_as_brand(&call("carol", 0, 0));
    market.list_order(&call("alice", 1, 0), 10, 5, 0, 0).unwrap();
    assert_eq!(
        market.consume_token(&call("carol", 2, 10), 0),
        Err(MarketError::MissingPrerequisite)
    );
    assert_eq!(market.rec_balance_of(&who("carol")), 0);
    assert_eq!(market.latest_timestamp(), 1);
}

#[test]
fn balance_that_would_overflow_is_refused() {
    let mut market = market_with("alice", 100);
    mint(&mut market, "bob", u64::MAX - 4);
    market.list_order(&call("alice", 1, 0), 10, 5, 0, 1000).unwrap();
    assert_eq!(market.create_buy_order(&call("bob", 2, 10), 0), Err(MarketError::Overflow));
    assert_eq!(market.take_on_option(&call("bob", 2, 10), 0), Err(MarketError::Overflow));
    mint(&mut market, "bob", u64::MAX - 5);
    market.take_on_option(&call("bob", 2, 10), 0).unwrap();
    assert_eq!(market.balance_of(&who("bob")), u64::MAX);
}

#[test]
fn redeeming_takes_tokens_away() {
    let mut market = market_with("alice", 100);
    market.redeem_tokens(&call("oracle", 3, 0), 40, &who("alice")).unwrap();
    assert_eq!(market.balance_of(&who("alice")), 60);
    assert_eq!(market.latest_timestamp(), 3);
    assert_eq!(
        market.redeem_tokens(&call("oracle", 4, 0), 61, &who("alice")),
        Err(MarketError::InsufficientBalance)
    );
    assert_eq!(
        market.redeem_tokens(&call("oracle", 4, 0), 1, &who("nobody")),
        Err(MarketError::InsufficientBalance)
    );
    assert_eq!(market.balance_of(&who("alice")), 60);
    assert_eq!(market.latest_timestamp(), 3);
    market.redeem_tokens(&call("oracle", 4, 0), 0, &who("nobody")).unwrap();
    assert_eq!(market.balance_of(&who("nobody")), 0);
}

#[test]
fn redeeming_sweeps_first() {
    let mut market = market_with("alice", 100);
    market.list_order(&call("alice", 1, 0), 10, 50, 0, 10).unwrap();
    market.take_on_option(&call("bob", 2, 0), 0).unwrap();
    // At 13 the window of the option, which runs from 2 for 10 seconds, has passed.
    market.redeem_tokens(&call("oracle", 13, 0), 0, &who("alice")).unwrap();
    assert_eq!(market.balance_of(&who("bob")), 0);
    assert!(!market.order(0).unwrap().fulfilled);
}

#[test]
fn ending_an_option_takes_the_tokens_from_the_owner() {
    let mut market = market_with("alice", 100);
    mint(&mut market, "bob", 7);
    market.list_order(&call("alice", 1, 0), 10, 50, 0, 1000).unwrap();
    market.take_on_option(&call("bob", 2, 0), 0).unwrap();
    assert_eq!(market.balance_of(&who("bob")), 57);
    market.end_option(0).unwrap();
    assert_eq!(market.balance_of(&who("bob")), 7);
    assert_eq!(market.balance_of(&who("alice")), 50);
    let order = market.order(0).unwrap();
    assert_eq!(order.owner, who("alice"));
    assert!(!order.fulfilled);
    assert_eq!(order.option_duration, 1000);
    assert_eq!(order.created_at, 2);
    assert_eq!(market.latest_timestamp(), 2);
}

#[test]
fn ending_an_option_needs_the_tokens() {
    let mut market = market_with("alice", 100);
    market.list_order(&call("alice", 1, 0), 10, 50, 0, 1000).unwrap();
    market.take_on_option(&call("bob", 2, 0), 0).unwrap();
    market.redeem_tokens(&call("oracle", 3, 0), 1, &who("bob")).unwrap();
    assert_eq!(market.end_option(0), Err(MarketError::InsufficientBalance));
    assert!(market.order(0).unwrap().fulfilled);
    assert_eq!(market.balance_of(&who("bob")), 49);
}

#[test]
fn sweep_that_cannot_finish_changes_nothing() {
    let mut market = market_with("alice", 100);
    market.list_order(&call("alice", 1, 0), 10, 30, 0, 10).unwrap();
    market.list_order(&call("alice", 1, 0), 10, 30, 0, 10).unwrap();
    market.take_on_option(&call("bob", 2, 0), 0).unwrap();
    market.take_on_option(&call("carol", 2, 0), 1).unwrap();
    market.redeem_tokens(&call("oracle", 3, 0), 30, &who("carol")).unwrap();

    // The first option could be ended, the second cannot: neither is.
    let refused = market.check_expired_options(&call("anyone", 100, 0));
    assert_eq!(refused, Err(MarketError::InsufficientBalance));
    assert_eq!(market.balance_of(&who("bob")), 30);
    assert!(market.order(0).unwrap().fulfilled);
    assert!(market.order(1).unwrap().fulfilled);
    assert_eq!(market.latest_timestamp(), 3);
    assert_eq!(
        market.list_order(&call("alice", 100, 0), 1, 1, 0, 0),
        Err(MarketError::InsufficientBalance)
    );
    assert_eq!(market.return_orders_array_length(), 2);
}

#[test]
fn sweep_takes_from_one_owner_for_each_order() {
    let mut market = market_with("alice", 100);
    market.list_order(&call("alice", 1, 0), 10, 30, 0, 10).unwrap();
    market.list_order(&call("alice", 1, 0), 10, 20, 0, 500).unwrap();
    market.list_order(&call("alice", 1, 0), 10, 5, 0, 10).unwrap();
    market.take_on_option(&call("bob", 2, 0), 0).unwrap();
    market.take_on_option(&call("bob", 2, 0), 1).unwrap();
    market.take_on_option(&call("bob", 2, 0), 2).unwrap();
    assert_eq!(market.balance_of(&who("bob")), 55);
    market.check_expired_options(&call("anyone", 13, 0)).unwrap();
    assert_eq!(market.balance_of(&who("bob")), 20);
    assert!(!market.order(0).unwrap().fulfilled);
    assert!(market.order(1).unwrap().fulfilled);
    assert!(!market.order(2).unwrap().fulfilled);
}

#[test]
fn window_ends_strictly_after_its_last_second() {
    let mut market = market_with("alice", 100);
    market.list_order(&call("alice", 100, 0), 10, 30, 0, 50).unwrap();
    market.take_on_option(&call("bob", 120, 0), 0).unwrap();
    market.check_expired_options(&call("anyone", 170, 0)).unwrap();
    assert!(market.order(0).unwrap().fulfilled);
    market.check_expired_options(&call("anyone", 171, 0)).unwrap();
    assert!(!market.order(0).unwrap().fulfilled);
}

#[test]
fn window_that_ends_beyond_all_time_never_passes() {
    let mut market = market_with("alice", 100);
    market.list_order(&call("alice", 100, 0), 10, 30, 0, u64::MAX).unwrap();
    market.take_on_option(&call("bob", 120, 0), 0).unwrap();
    market.check_expired_options(&call("anyone", u64::MAX, 0)).unwrap();
    assert!(market.order(0).unwrap().fulfilled);
    assert_eq!(market.balance_of(&who("bob")), 30);
}

#[test]
fn sold_order_is_never_swept() {
    let mut market = market_with("alice", 100);
    market.list_order(&call("alice", 1, 0), 10, 30, 0, 10).unwrap();
    market.create_buy_order(&call("bob", 2, 10), 0).unwrap();
    market.check_expired_options(&call("anyone", 1000, 0)).unwrap();
    assert_eq!(market.balance_of(&who("bob")), 30);
    assert!(market.order(0).unwrap().fulfilled);
}

#[test]
fn sweeping_twice_is_sweeping_once_where_no_tokens_are_at_stake() {
    let mut market = market_with("alice", 100);
    market.list_order(&call("alice", 1, 0), 10, 0, 0, 10).unwrap();
    market.list_order(&call("alice", 1, 0), 10, 40, 0, 5000).unwrap();
    market.take_on_option(&call("bob", 2, 0), 0).unwrap();
    market.take_on_option(&call("bob", 2, 0), 1).unwrap();

    market.check_expired_options(&call("anyone", 100, 0)).unwrap();
    let orders: Vec<Order> = (0..2).map(|id| market.order(id).unwrap()).collect();
    let balances = (market.balance_of(&who("alice")), market.balance_of(&who("bob")));
    assert!(!orders[0].fulfilled);
    assert!(orders[1].fulfilled);

    market.check_expired_options(&call("anyone", 100, 0)).unwrap();
    let again: Vec<Order> = (0..2).map(|id| market.order(id).unwrap()).collect();
    assert_eq!(again, orders);
    assert_eq!((market.balance_of(&who("alice")), market.balance_of(&who("bob"))), balances);
    assert_eq!(market.latest_timestamp(), 100);
    assert_eq!(market.creds_market_price(), 10);
}

#[test]
fn ended_option_is_ended_again_by_the_next_sweep() {
    let mut market = market_with("alice", 100);
    market.list_order(&call("alice", 1000, 0), 500, 50, 0, 3600).unwrap();
    market.take_on_option(&call("bob", 1100, 40), 0).unwrap();
    market.check_expired_options(&call("anyone", 4701, 0)).unwrap();
    assert_eq!(market.balance_of(&who("alice")), 50);
    // The window still lies in the past, and the seller owns the order now.
    market.check_expired_options(&call("anyone", 4701, 0)).unwrap();
    assert_eq!(market.balance_of(&who("alice")), 0);
    assert_eq!(
        market.check_expired_options(&call("anyone", 4701, 0)),
        Err(MarketError::InsufficientBalance)
    );
}

#[test]
fn tokens_are_neither_made_nor_lost_in_trading() {
    let names = ["alice", "bob", "carol"];
    let mut market = market_with("alice", 100);
    mint(&mut market, "bob", 11);
    assert_eq!(supply(&market, &names), 111);
    market.register_as_brand(&call("carol", 0, 0));
    market.add_promotion_secret(&call("carol", 0, 0), vec![1]);

    market.list_order(&call("alice", 1, 0), 10, 30, 0, 10).unwrap();
    assert_eq!(supply(&market, &names), 111);
    market.list_order(&call("alice", 1, 0), 10, 20, 0, 5000).unwrap();
    market.list_order(&call("bob", 1, 0), 10, 5, 0, 5000).unwrap();
    assert_eq!(supply(&market, &names), 111);
    market.take_on_option(&call("bob", 2, 0), 0).unwrap();
    assert_eq!(supply(&market, &names), 111);
    market.create_buy_order(&call("bob", 3, 10), 1).unwrap();
    assert_eq!(supply(&market, &names), 111);
    market.consume_token(&call("carol", 4, 10), 2).unwrap();
    assert_eq!(supply(&market, &names), 111);
    assert_eq!(market.rec_balance_of(&who("carol")), 5);
    market.check_expired_options(&call("anyone", 13, 0)).unwrap();
    assert_eq!(supply(&market, &names), 111);
    assert_eq!(market.balance_of(&who("bob")), 26);

    // The oracle's word is what changes the number of tokens.
    mint(&mut market, "carol", 9);
    assert_eq!(supply(&market, &names), 111 + 9 - 30);
}

#[test]
fn clock_follows_the_host() {
    let mut market = market_with("alice", 100);
    let mut last = market.latest_timestamp();
    market.update_time(&call("anyone", 5, 0));
    assert_eq!(market.latest_timestamp(), 5);
    assert!(market.latest_timestamp() >= last);
    last = market.latest_timestamp();
    market.list_order(&call("alice", 9, 0), 10, 30, 0, 10).unwrap();
    assert_eq!(market.latest_timestamp(), 9);
    assert!(market.latest_timestamp() >= last);
    last = market.latest_timestamp();
    market.register_as_brand(&call("carol", 4000, 0));
    market.end_option(0).unwrap();
    assert_eq!(market.latest_timestamp(), last);
    assert_eq!(market.take_on_option(&call("bob", 12, 0), 3), Err(MarketError::OrderOutOfRange));
    assert_eq!(market.latest_timestamp(), last);
    market.check_expired_options(&call("anyone", 12, 0)).unwrap();
    assert_eq!(market.latest_timestamp(), 12);
}

#[test]
fn parts_make_the_same_market_again() {
    let mut market = market_with("alice", 100);
    market.register_as_brand(&call("carol", 0, 0));
    market.add_promotion_secret(&call("carol", 0, 0), vec![0xAB]);
    market.list_order(&call("alice", 1, 0), 200, 20, 1, 10).unwrap();
    market.list_order(&call("alice", 2, 0), 10, 30, 1, 10).unwrap();
    market.consume_token(&call("carol", 3, 200), 0).unwrap();
    market.check_verified_sensors(&FIRST_SENSOR.to_vec());

    let parts = market.into_parts();
    assert_eq!(parts.latest_timestamp, 3);
    assert_eq!(parts.creds_market_price, 10);
    assert_eq!(parts.order_array.len(), 2);
    assert!(parts.is_verified);
    assert_eq!(parts.balances.len(), 1);
    assert_eq!(parts.balances.key_at(0), &b"alice".to_vec());
    assert_eq!(parts.balances.value_at(0), &50);
    assert_eq!(parts.rec_balances.amount(&b"carol".to_vec()), 20);
    assert_eq!(parts.gen_station_to_address.get(&b"alice".to_vec()), Some(&who("alice")));
    assert_eq!(parts.address_to_promotion_secret.get(&b"carol".to_vec()), Some(&vec![0xABu8]));
    assert_eq!(
        parts.address_to_eligible_promotions.get(&b"alice".to_vec()),
        Some(&vec![vec![0xABu8]])
    );

    let mut market = Contract::from_parts(parts).unwrap();
    assert_eq!(market.balance_of(&who("alice")), 50);
    assert_eq!(market.rec_balance_of(&who("carol")), 20);
    assert!(market.is_brand(&who("carol")));
    assert!(market.is_verified());
    assert_eq!(market.return_orders_array_length(), 2);
    market.create_buy_order(&call("bob", 4, 10), 1).unwrap();
    assert_eq!(market.balance_of(&who("bob")), 30);
}

#[test]
fn parts_with_a_bad_order_book_make_no_market() {
    let mut market = market_with("alice", 100);
    market.list_order(&call("alice", 1, 0), 200, 20, 1, 10).unwrap();
    let mut parts: Parts = market.into_parts();
    parts.order_array[0].order_id = 1;
    assert!(Contract::from_parts(parts).is_none());

    let mut market = market_with("alice", 100);
    market.list_order(&call("alice", 1, 0), 200, 20, 1, 10).unwrap();
    let mut parts: Parts = market.into_parts();
    parts.order_array[0].owner = who("bob");
    assert!(!orders_valid(&parts.order_array));
    assert!(Contract::from_parts(parts).is_none());

    let mut market = market_with("alice", 100);
    market.list_order(&call("alice", 1, 0), 200, 20, 1, 10).unwrap();
    let mut parts: Parts = market.into_parts();
    parts.order_array[0].owner = who("bob");
    parts.order_array[0].fulfilled = true;
    assert!(orders_valid(&parts.order_array));
    assert!(Contract::from_parts(parts).is_some());
}

#[test]
fn table_keeps_one_entry_per_key() {
    let mut table: Table<u64> = Table::new();
    assert_eq!(table.len(), 0);
    assert_eq!(table.get(&vec![1]), None);
    assert_eq!(table.amount(&vec![1]), 0);
    assert!(!table.contains(&vec![1]));
    table.set(vec![1], 10);
    table.set(vec![], 20);
    table.set(vec![1, 0], 30);
    table.set(vec![1], 11);
    assert_eq!(table.len(), 3);
    assert_eq!(table.get(&vec![1]), Some(&11));
    assert_eq!(table.get(&vec![]), Some(&20));
    assert_eq!(table.amount(&vec![1, 0]), 30);
    assert_eq!(table.find(&vec![1, 0]), Some(2));
    assert_eq!(table.find(&vec![0, 1]), None);
    assert!(table.contains(&vec![]));
    assert_eq!(table.key_at(0), &vec![1u8]);
    assert_eq!(table.value_at(0), &11);

    let mut copy = table.duplicate();
    copy.set(vec![1], 12);
    assert_eq!(table.amount(&vec![1]), 11);
    assert_eq!(copy.amount(&vec![1]), 12);
    assert_eq!(copy.len(), 3);
}

#[test]
fn byte_strings_compare_and_copy() {
    assert!(bytes_eq(&vec![], &vec![]));
    assert!(bytes_eq(&vec![1, 2, 3], &vec![1, 2, 3]));
    assert!(!bytes_eq(&vec![1, 2, 3], &vec![1, 2]));
    assert!(!bytes_eq(&vec![1, 2, 3], &vec![1, 2, 4]));
    assert_eq!(bytes_copy(&vec![5, 6]), vec![5u8, 6]);
    assert_eq!(bytes_list_copy(&vec![vec![1], vec![], vec![2, 3]]), vec![vec![1u8], vec![], vec![2, 3]]);
    assert!(sensor_matches(&FIRST_SENSOR, &FIRST_SENSOR.to_vec()));
    assert!(!sensor_matches(&FIRST_SENSOR, &SECOND_SENSOR.to_vec()));
    assert!(!sensor_matches(&FIRST_SENSOR, &vec![]));
    assert!(who("alice").same(&who("alice")));
    assert!(!who("alice").same(&who("alicf")));
    assert_eq!(who("alice").copy(), who("alice"));
    assert_eq!(who("alice").clone(), who("alice"));
}

#[test]
fn orders_copy_and_expire() {
    let order = Order {
        seller: who("alice"),
        owner: who("bob"),
        order_id: 0,
        sell_price: 1,
        is_buy: false,
        is_sale: true,
        is_option: true,
        option_fee: 2,
        option_duration: 10,
        fulfilled: true,
        no_of_hm_tokens: 3,
        created_at: 5,
    };
    assert_eq!(order.copy(), order);
    assert_eq!(order.clone(), order);
    assert!(!order.is_expired(15));
    assert!(order.is_expired(16));
    let mut never = order.copy();
    never.option_duration = 0;
    assert!(!never.is_expired(u64::MAX));
    let orders = vec![order, never];
    assert_eq!(copy_orders(&orders), orders);
    assert!(!orders_valid(&orders));
}

#[test]
fn errors_have_their_numbers() {
    assert_eq!(MarketError::InsufficientPayment.code(), 1);
    assert_eq!(MarketError::AlreadyFulfilled.code(), 2);
    assert_eq!(MarketError::InsufficientBalance.code(), 3);
    assert_eq!(MarketError::Permission.code(), 4);
    assert_eq!(MarketError::MissingPrerequisite.code(), 5);
    assert_eq!(MarketError::OrderOutOfRange.code(), 6);
    assert_eq!(MarketError::EmptyOrder.code(), 7);
    assert_eq!(MarketError::Overflow.code(), 8);
}
