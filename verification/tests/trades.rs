use hm_market::bytes::Address;
use hm_market::contract::{Contract, Invocation, Transfer};
use hm_market::error::MarketError;

fn who(name: &str) -> Address {
    Address::new(name.as_bytes().to_vec())
}

fn call(name: &str, timestamp: u64, transferred_balance: u64) -> Invocation {
    Invocation { invoker: who(name), timestamp, transferred_balance }
}

/// A market that was started, in which the oracle has given `name` a balance.
fn market_with(name: &str, tokens: u64) -> Contract {
    let mut market = Contract::new();
    market.init();
    market.add_gen_station(&call(name, 0, 0), name.as_bytes().to_vec());
    market
        .update_hm_token_balance(&call("oracle", 0, 0), &name.as_bytes().to_vec(), tokens)
        .unwrap();
    market
}

#[test]
fn list_then_buy() {
    let mut market = market_with("alice", 100);
    assert_eq!(market.balance_of(&who("alice")), 100);
    market.list_order(&call("alice", 1000, 0), 500, 50, 0, 3600).unwrap();
    assert_eq!(market.balance_of(&who("alice")), 50);
    assert_eq!(market.return_orders_array_length(), 1);

    let paid = market.create_buy_order(&call("bob", 1000, 500), 0).unwrap();
    assert_eq!(paid, Transfer { to: who("alice"), amount: 500 });
    assert_eq!(market.balance_of(&who("alice")), 50);
    assert_eq!(market.balance_of(&who("bob")), 50);
    assert_eq!(market.creds_market_price(), 10);
    let order = market.order(0).unwrap();
    assert!(order.fulfilled);
    assert_eq!(order.option_duration, 0);
    assert_eq!(order.owner, who("bob"));
    assert_eq!(order.seller, who("alice"));
}

#[test]
fn listing_fills_every_field() {
    let mut market = market_with("alice", 100);
    market.list_order(&call("alice", 1000, 0), 500, 50, 7, 3600).unwrap();
    let order = market.order(0).unwrap();
    assert_eq!(order.order_id, 0);
    assert_eq!(order.seller, who("alice"));
    assert_eq!(order.owner, who("alice"));
    assert_eq!(order.sell_price, 500);
    assert_eq!(order.no_of_hm_tokens, 50);
    assert_eq!(order.option_fee, 7);
    assert_eq!(order.option_duration, 3600);
    assert_eq!(order.created_at, 1000);
    assert!(!order.fulfilled);
    assert!(!order.is_buy);
    assert!(order.is_sale);
    assert!(order.is_option);
    assert_eq!(market.latest_timestamp(), 1000);
}

#[test]
fn option_taken_then_expired() {
    let mut market = market_with("alice", 100);
    market.list_order(&call("alice", 1000, 0), 500, 50, 0, 3600).unwrap();

    let paid = market.take_on_option(&call("bob", 1100, 40), 0).unwrap();
    assert_eq!(paid, Transfer { to: who("alice"), amount: 40 });
    assert_eq!(market.balance_of(&who("bob")), 50);
    assert_eq!(market.balance_of(&who("alice")), 50);
    let taken = market.order(0).unwrap();
    assert_eq!(taken.created_at, 1100);
    assert_eq!(taken.option_duration, 3600);
    assert!(taken.fulfilled);
    assert_eq!(taken.owner, who("bob"));
    assert_eq!(market.creds_market_price(), 10);

    // One second before the window has passed, nothing ends.
    market.check_expired_options(&call("anyone", 4700, 0)).unwrap();
    assert!(market.order(0).unwrap().fulfilled);
    assert_eq!(market.balance_of(&who("bob")), 50);

    market.check_expired_options(&call("anyone", 4701, 0)).unwrap();
    assert_eq!(market.balance_of(&who("bob")), 0);
    let back = market.order(0).unwrap();
    assert_eq!(back.owner, who("alice"));
    assert!(!back.fulfilled);
    assert_eq!(back.option_duration, 3600);
    assert_eq!(back.no_of_hm_tokens, 50);
    // The tokens are in escrow with the listing again, not on the seller's balance.
    assert_eq!(market.balance_of(&who("alice")), 50);
    assert_eq!(market.creds_market_price(), 10);
    assert_eq!(market.latest_timestamp(), 4701);
}

#[test]
fn consume_by_brand() {
    let mut market = market_with("alice", 100);
    market.register_as_brand(&call("carol", 0, 0));
    market.add_promotion_secret(&call("carol", 0, 0), vec![0xAB]);
    market.list_order(&call("alice", 1000, 0), 200, 20, 0, 3600).unwrap();
    assert_eq!(market.balance_of(&who("alice")), 80);

    let paid = market.consume_token(&call("carol", 1000, 200), 0).unwrap();
    assert_eq!(paid, Transfer { to: who("alice"), amount: 200 });
    assert_eq!(market.rec_balance_of(&who("carol")), 20);
    assert_eq!(market.balance_of(&who("carol")), 0);
    assert_eq!(market.balance_of(&who("alice")), 80);
    assert_eq!(market.get_all_eligible_promotions(&who("alice")), vec![vec![0xABu8]]);
    assert_eq!(market.creds_market_price(), 10);
    let order = market.order(0).unwrap();
    assert!(order.fulfilled);
    assert_eq!(order.option_duration, 0);
    assert_eq!(order.owner, who("carol"));
}

#[test]
fn insufficient_payment_changes_nothing() {
    let mut market = market_with("alice", 100);
    market.list_order(&call("alice", 1000, 0), 500, 50, 0, 3600).unwrap();
    let before = market.order(0).unwrap();

    let refused = market.create_buy_order(&call("bob", 2000, 499), 0);
    assert_eq!(refused, Err(MarketError::InsufficientPayment));
    assert_eq!(market.balance_of(&who("alice")), 50);
    assert_eq!(market.balance_of(&who("bob")), 0);
    assert_eq!(market.order(0).unwrap(), before);
    assert_eq!(market.creds_market_price(), 10);
    assert_eq!(market.latest_timestamp(), 1000);
}

#[test]
fn consume_by_one_who_is_no_brand() {
    let mut market = market_with("alice", 100);
    market.list_order(&call("alice", 1000, 0), 200, 20, 0, 3600).unwrap();
    market.add_promotion_secret(&call("dan", 0, 0), vec![1, 2, 3]);

    let refused = market.consume_token(&call("dan", 1000, 200), 0);
    assert_eq!(refused, Err(MarketError::Permission));
    assert_eq!(market.rec_balance_of(&who("dan")), 0);
    assert!(!market.order(0).unwrap().fulfilled);
    assert!(market.get_all_eligible_promotions(&who("alice")).is_empty());
}

#[test]
fn oracle_sets_balances_outright() {
    let mut market = Contract::new();
    market.init();
    market.add_gen_station(&call("eve", 0, 0), vec![0x01]);
    market.update_hm_token_balance(&call("oracle", 5, 0), &vec![0x01], 1000).unwrap();
    assert_eq!(market.balance_of(&who("eve")), 1000);
    assert_eq!(market.return_hm_balance(&call("eve", 6, 0)), 1000);
    market.update_hm_token_balance(&call("oracle", 7, 0), &vec![0x01], 2000).unwrap();
    assert_eq!(market.balance_of(&who("eve")), 2000);
    assert_eq!(market.latest_timestamp(), 7);
}
