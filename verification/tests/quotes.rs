use kalshi_mm::config::Config;
use kalshi_mm::execution::{OrderStatus, OrderTracker, TrackedOrder};
use kalshi_mm::market_data::{OrderBook, TrendDirection};
use kalshi_mm::risk::{HaltReason, RiskManager};
use kalshi_mm::strategy::{DesiredQuote, Strategy, StrategyAction};

const TICKER: &str = "KXBTC15M-1";

fn order(id: &str, side: &str, price_cents: i64, remaining: i64) -> TrackedOrder {
    TrackedOrder {
        order_id: id.to_string(),
        client_order_id: format!("c-{}", id),
        ticker: TICKER.to_string(),
        side: side.to_string(),
        action: "buy".to_string(),
        price_cents,
        count: 1,
        remaining,
        status: OrderStatus::Resting,
        created_ms: 0,
    }
}

fn book(bid: i64, ask: i64) -> OrderBook {
    let mut book = OrderBook::new();
    book.apply_snapshot(&[(bid, 10)], &[(100 - ask, 10)], 1);
    book
}

fn quote_with(book: &OrderBook, tracker: &OrderTracker, inventory: i64, trend: TrendDirection, config: Config) -> (i64, i64) {
    let mut risk = RiskManager::new(&config);
    risk.set_ws_connected(true);
    risk.inventory = inventory;
    let strategy = Strategy::new(config);
    assert!(strategy.accepts_quote(book, tracker, TICKER, &risk, trend));
    let quote = strategy.compute_desired_quotes(book, tracker, TICKER, &risk, trend);
    (quote.bid_price, quote.ask_price)
}

fn quote(bid: i64, ask: i64, inventory: i64, trend: TrendDirection) -> (i64, i64) {
    quote_with(&book(bid, ask), &OrderTracker::new(), inventory, trend, Config::default())
}

#[test]
fn tight_spread_is_joined() {
    assert_eq!(quote(40, 41, 0, TrendDirection::Flat), (40, 41));
    assert_eq!(quote(40, 42, 0, TrendDirection::Flat), (40, 42));
}

#[test]
fn wide_spread_is_improved() {
    assert_eq!(quote(40, 43, 0, TrendDirection::Flat), (41, 42));
    assert_eq!(quote(40, 50, 0, TrendDirection::Flat), (41, 49));
}

#[test]
fn trend_lags_the_dangerous_side() {
    assert_eq!(quote(40, 50, 0, TrendDirection::Up), (40, 49));
    assert_eq!(quote(40, 50, 0, TrendDirection::Down), (41, 50));
    assert_eq!(quote(1, 2, 0, TrendDirection::Up), (1, 2));
    assert_eq!(quote(98, 99, 0, TrendDirection::Down), (98, 99));
}

#[test]
fn inventory_skews_the_reducing_side() {
    assert_eq!(quote(40, 50, 1, TrendDirection::Flat), (41, 49));
    assert_eq!(quote(40, 50, 2, TrendDirection::Flat), (41, 48));
    assert_eq!(quote(40, 50, 4, TrendDirection::Flat), (41, 47));
    assert_eq!(quote(40, 50, -2, TrendDirection::Flat), (42, 49));
    assert_eq!(quote(40, 50, -4, TrendDirection::Flat), (43, 49));
}

#[test]
fn skew_never_crosses_the_market() {
    assert_eq!(quote(40, 41, 4, TrendDirection::Flat), (40, 41));
    assert_eq!(quote(40, 41, -4, TrendDirection::Flat), (40, 41));
    assert_eq!(quote(40, 42, 4, TrendDirection::Flat), (40, 41));
}

#[test]
fn full_inventory_closes_a_side() {
    assert_eq!(quote(40, 50, 5, TrendDirection::Flat), (0, 47));
    assert_eq!(quote(40, 50, -5, TrendDirection::Flat), (43, 0));
}

#[test]
fn nothing_is_quoted_without_a_market() {
    let config = Config::default();
    let tracker = OrderTracker::new();
    let mut empty = OrderBook::new();
    assert_eq!(quote_with(&empty, &tracker, 0, TrendDirection::Flat, config.clone()), (0, 0));
    empty.apply_snapshot(&[(40, 1)], &[], 1);
    assert_eq!(quote_with(&empty, &tracker, 0, TrendDirection::Flat, config.clone()), (0, 0));
    empty.apply_snapshot(&[(60, 1)], &[(60, 1)], 1);
    assert_eq!(quote_with(&empty, &tracker, 0, TrendDirection::Flat, config), (0, 0));
}

#[test]
fn hard_cap_stops_quoting() {
    assert_eq!(quote(40, 50, 9, TrendDirection::Flat), (0, 47));
    assert_eq!(quote(40, 50, 10, TrendDirection::Flat), (0, 0));
    assert_eq!(quote(40, 50, -10, TrendDirection::Flat), (0, 0));
}

#[test]
fn low_profit_suppresses_the_quote() {
    let mut config = Config::default();
    config.min_pair_profit_cents = 3;
    let tracker = OrderTracker::new();
    assert_eq!(quote_with(&book(40, 42), &tracker, 0, TrendDirection::Flat, config.clone()), (0, 0));
    assert_eq!(quote_with(&book(40, 45), &tracker, 0, TrendDirection::Flat, config.clone()), (41, 44));
    assert_eq!(quote_with(&book(40, 44), &tracker, 0, TrendDirection::Flat, config), (0, 0));
}

#[test]
fn own_orders_are_left_out_of_the_market() {
    let mut tracker = OrderTracker::new();
    tracker.track(order("b", "yes", 41, 1));
    tracker.track(order("a", "no", 51, 1));
    let mut own = OrderBook::new();
    own.apply_snapshot(&[(41, 1), (40, 10)], &[(51, 1), (50, 10)], 1);
    assert_eq!(quote_with(&own, &tracker, 0, TrendDirection::Flat, Config::default()), (41, 49));
    own.apply_snapshot(&[(41, 2), (40, 10)], &[(51, 2), (50, 10)], 2);
    assert_eq!(quote_with(&own, &tracker, 0, TrendDirection::Flat, Config::default()), (42, 48));
}

#[test]
fn impossible_skew_is_told() {
    let mut config = Config::default();
    config.inventory_skew_threshold = 0;
    config.hard_inventory_cap = i64::MAX;
    let mut risk = RiskManager::new(&config);
    risk.set_ws_connected(true);
    let strategy = Strategy::new(config);
    let tracker = OrderTracker::new();
    assert!(strategy.accepts_quote(&book(40, 50), &tracker, TICKER, &risk, TrendDirection::Flat));
    risk.inventory = 1;
    assert!(!strategy.accepts_quote(&book(40, 50), &tracker, TICKER, &risk, TrendDirection::Flat));
    risk.halt(HaltReason::SequenceGap);
    assert!(strategy.accepts_quote(&book(40, 50), &tracker, TICKER, &risk, TrendDirection::Flat));
}

#[test]
fn negative_threshold_skews_the_other_way() {
    let mut config = Config::default();
    config.inventory_skew_threshold = -1;
    assert_eq!(quote_with(&book(40, 50), &OrderTracker::new(), 3, TrendDirection::Flat, config), (41, 52));
}

#[test]
fn reconcile_places_what_is_missing() {
    let strategy = Strategy::new(Config::default());
    let actions = strategy.reconcile(&DesiredQuote { bid_price: 41, ask_price: 49 }, &OrderTracker::new(), TICKER);
    assert_eq!(actions.len(), 2);
    assert!(matches!(actions[0], StrategyAction::PlaceBid { price_cents: 41, count: 1 }));
    assert!(matches!(actions[1], StrategyAction::PlaceAsk { price_cents: 49, count: 1 }));
}

#[test]
fn reconcile_cancels_amends_and_keeps() {
    let strategy = Strategy::new(Config::default());
    let mut tracker = OrderTracker::new();
    tracker.track(order("b", "yes", 41, 1));
    tracker.track(order("a", "no", 51, 1));

    assert!(strategy.reconcile(&DesiredQuote { bid_price: 41, ask_price: 49 }, &tracker, TICKER).is_empty());

    let gone = strategy.reconcile(&DesiredQuote { bid_price: 0, ask_price: 0 }, &tracker, TICKER);
    assert_eq!(gone.len(), 2);
    match (&gone[0], &gone[1]) {
        (StrategyAction::CancelOrder { order_id: b }, StrategyAction::CancelOrder { order_id: a }) => {
            assert_eq!(b, "b");
            assert_eq!(a, "a");
        }
        other => panic!("{:?}", other),
    }

    let moved = strategy.reconcile(&DesiredQuote { bid_price: 40, ask_price: 48 }, &tracker, TICKER);
    assert_eq!(moved.len(), 2);
    match &moved[0] {
        StrategyAction::AmendBid { order_id, client_order_id, new_price_cents, count } => {
            assert_eq!((order_id.as_str(), client_order_id.as_str(), *new_price_cents, *count), ("b", "c-b", 40, 1));
        }
        other => panic!("{:?}", other),
    }
    match &moved[1] {
        StrategyAction::AmendAsk { order_id, client_order_id, new_price_cents, count } => {
            assert_eq!((order_id.as_str(), client_order_id.as_str(), *new_price_cents, *count), ("a", "c-a", 52, 1));
        }
        other => panic!("{:?}", other),
    }
    assert!(strategy.reconcile(&DesiredQuote { bid_price: -1, ask_price: -1 }, &tracker, TICKER).is_empty());
    assert_eq!(strategy.reconcile(&DesiredQuote { bid_price: 41, ask_price: 49 }, &tracker, "OTHER").len(), 2);
}

#[test]
fn trend_lags_at_a_position_too() {
    assert_eq!(quote(40, 50, 4, TrendDirection::Up), (40, 47));
    assert_eq!(quote(40, 50, 4, TrendDirection::Down), (41, 48));
    assert_eq!(quote(40, 50, -4, TrendDirection::Up), (42, 49));
    assert_eq!(quote(97, 99, -4, TrendDirection::Flat), (98, 99));
    assert_eq!(quote(97, 99, -4, TrendDirection::Up), (98, 99));
}
