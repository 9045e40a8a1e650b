use kalshi_mm::config::Config;
use kalshi_mm::execution::{OrderStatus, OrderTracker, TrackedOrder};
use kalshi_mm::orders::{
    accepts_action, adopt, after_cancel_many, dispatch, fired, mark_amends, request_for, settle, split_actions, Dispatch,
    OrderRequest, Reply,
};
use kalshi_mm::risk::{HaltReason, RiskManager, RiskState};
use kalshi_mm::strategy::StrategyAction;

const TICKER: &str = "KXBTC15M-1";

fn order(id: &str, side: &str, status: OrderStatus, created_ms: u64) -> TrackedOrder {
    TrackedOrder {
        order_id: id.to_string(),
        client_order_id: format!("c-{}", id),
        ticker: TICKER.to_string(),
        side: side.to_string(),
        action: "buy".to_string(),
        price_cents: 40,
        count: 2,
        remaining: 2,
        status,
        created_ms,
    }
}

fn tracker_of(orders: Vec<TrackedOrder>) -> OrderTracker {
    let mut tracker = OrderTracker::new();
    for order in orders {
        tracker.track(order);
    }
    tracker
}

fn ids(tracker: &OrderTracker) -> Vec<String> {
    tracker.orders.iter().map(|o| o.order_id.clone()).collect()
}

fn in_market(orders: &[(&str, &str)]) -> OrderTracker {
    tracker_of(orders.iter().map(|(id, side)| order(id, side, OrderStatus::Resting, 0)).collect())
}

fn amend_bid(id: &str, price: i64) -> StrategyAction {
    StrategyAction::AmendBid {
        order_id: id.to_string(),
        client_order_id: format!("c-{}", id),
        new_price_cents: price,
        count: 1,
    }
}

fn amend_ask(id: &str, price: i64) -> StrategyAction {
    StrategyAction::AmendAsk {
        order_id: id.to_string(),
        client_order_id: format!("c-{}", id),
        new_price_cents: price,
        count: 1,
    }
}

fn reply(id: &str) -> Reply {
    Reply::Order { order_id: id.to_string(), client_order_id: format!("k-{}", id) }
}

fn risk() -> RiskManager {
    let mut risk = RiskManager::new(&Config::default());
    risk.set_ws_connected(true);
    risk
}

#[test]
fn tracking_replaces_the_same_id() {
    let mut tracker = in_market(&[("a", "yes"), ("b", "no")]);
    tracker.track(order("a", "no", OrderStatus::PendingNew, 9));
    assert_eq!(ids(&tracker), vec!["a", "b"]);
    assert_eq!(tracker.orders[0].created_ms, 9);
    tracker.remove("a");
    tracker.remove("zzz");
    assert_eq!(ids(&tracker), vec!["b"]);
    tracker.update_status("b", OrderStatus::Canceled);
    assert_eq!(tracker.orders[0].status, OrderStatus::Canceled);
}

#[test]
fn working_orders_are_found() {
    let mut tracker = tracker_of(vec![
        order("done", "yes", OrderStatus::Executed, 0),
        order("bid", "yes", OrderStatus::PendingAmend, 0),
        order("ask", "no", OrderStatus::PendingNew, 0),
        order("late", "no", OrderStatus::PendingCancel, 0),
    ]);
    assert_eq!(tracker.resting_bid(TICKER).unwrap().order_id, "bid");
    assert_eq!(tracker.resting_ask(TICKER).unwrap().order_id, "ask");
    assert!(tracker.resting_bid("OTHER").is_none());
    assert_eq!(tracker.resting_order_ids(TICKER), vec!["bid", "ask"]);
    tracker.orders[1].action = "sell".to_string();
    assert!(tracker.resting_bid(TICKER).is_none());
    let ids = tracker.resting_order_ids(TICKER);
    tracker.remove_all(&ids);
    assert!(tracker.resting_order_ids(TICKER).is_empty());
    assert_eq!(tracker.orders.len(), 2);
}

#[test]
fn fills_use_up_an_order() {
    let mut tracker = in_market(&[("a", "yes")]);
    tracker.record_fill("a", 1);
    assert_eq!((tracker.orders[0].remaining, tracker.orders[0].status), (1, OrderStatus::Resting));
    tracker.record_fill("a", 1);
    assert_eq!((tracker.orders[0].remaining, tracker.orders[0].status), (0, OrderStatus::Executed));
    tracker.record_fill("zzz", 1);
    assert!(tracker.accepts_fill("zzz", i64::MIN));
    assert!(!in_market(&[("a", "yes")]).accepts_fill("a", i64::MIN));
}

#[test]
fn old_orders_are_forgotten() {
    let mut tracker = tracker_of(vec![
        order("old", "yes", OrderStatus::Executed, 0),
        order("gone", "yes", OrderStatus::Canceled, 99),
        order("edge", "yes", OrderStatus::Canceled, 100),
        order("live", "yes", OrderStatus::Resting, 0),
        order("ahead", "yes", OrderStatus::Executed, 900),
    ]);
    tracker.gc(400, 300);
    assert_eq!(ids(&tracker), vec!["edge", "live", "ahead"]);
}

#[test]
fn pair_profit_is_booked() {
    let mut risk = risk();
    risk.record_fill("yes", "buy", 40, 2, 2);
    assert_eq!((risk.inventory, risk.daily_pnl_cents, risk.pairs_completed), (2, 0, 0));
    assert_eq!((risk.open_contracts, risk.open_cost_cents), (2, 80));
    risk.record_fill("no", "buy", 45, 1, 1);
    assert_eq!((risk.inventory, risk.daily_pnl_cents, risk.pairs_completed), (1, 5, 1));
    risk.record_fill("yes", "sell", 38, 3, -2);
    assert_eq!((risk.daily_pnl_cents, risk.pairs_completed), (3, 2));
    assert_eq!((risk.open_contracts, risk.open_cost_cents), (-2, 124));
    risk.record_fill("yes", "buy", 101, 3, 7);
    risk.record_fill("yes", "buy", 50, 0, 8);
    assert_eq!((risk.inventory, risk.daily_pnl_cents, risk.open_contracts), (8, 3, -2));
}

#[test]
fn filled_pair_brings_the_spread() {
    let mut one = risk();
    one.record_fill("yes", "buy", 41, 3, 3);
    one.record_fill("no", "buy", 49, 3, 0);
    assert_eq!((one.daily_pnl_cents, one.pairs_completed), (24, 3));
    assert_eq!((one.open_contracts, one.open_cost_cents, one.inventory), (0, 0, 0));
    let mut two = risk();
    two.record_fill("no", "buy", 49, 3, -3);
    two.record_fill("yes", "buy", 41, 3, 0);
    assert_eq!((two.daily_pnl_cents, two.pairs_completed, two.open_cost_cents), (24, 3, 0));
}

#[test]
fn limits_halt_trading() {
    let mut risk = RiskManager::new(&Config::default());
    assert_eq!(risk.tick(), RiskState::Halted);
    risk.set_ws_connected(true);
    assert_eq!(risk.tick(), RiskState::Normal);
    risk.inventory = 10;
    assert_eq!(risk.tick(), RiskState::Halted);
    risk.inventory = i64::MIN;
    assert!(!risk.should_quote() && !risk.can_ask() && risk.can_bid());
    risk.inventory = 5;
    assert!(risk.should_quote() && !risk.can_bid() && risk.can_ask());
    risk.carry_daily_pnl(-499);
    assert!(risk.should_quote());
    risk.carry_daily_pnl(-500);
    assert!(!risk.should_quote());
    risk.carry_daily_pnl(0);
    risk.halt(HaltReason::SequenceGap);
    assert_eq!(risk.halted.unwrap().name(), "sequence_gap");
    assert_eq!(HaltReason::WsChannelClosed.name(), "ws_channel_closed");
    risk.set_ws_connected(true);
    assert_eq!(risk.tick(), RiskState::Halted);
}

#[test]
fn requests_of_actions() {
    let tracker = in_market(&[("a", "yes"), ("b", "no")]);
    match request_for(&StrategyAction::PlaceBid { price_cents: 41, count: 1 }, &tracker, TICKER).unwrap() {
        OrderRequest::Buy { side, price_cents, count } => assert_eq!((side.as_str(), price_cents, count), ("yes", 41, 1)),
        other => panic!("{:?}", other),
    }
    match request_for(&StrategyAction::PlaceAsk { price_cents: 49, count: 1 }, &tracker, TICKER).unwrap() {
        OrderRequest::Buy { side, price_cents, count } => assert_eq!((side.as_str(), price_cents, count), ("no", 51, 1)),
        other => panic!("{:?}", other),
    }
    match request_for(&amend_bid("a", 42), &tracker, TICKER).unwrap() {
        OrderRequest::Amend { order_id, client_order_id, side, price_cents, count } => {
            assert_eq!((order_id.as_str(), client_order_id.as_str()), ("a", "c-a"));
            assert_eq!((side.as_str(), price_cents, count), ("yes", 42, 1));
        }
        other => panic!("{:?}", other),
    }
    match request_for(&amend_ask("b", 52), &tracker, TICKER).unwrap() {
        OrderRequest::Amend { order_id, side, price_cents, .. } => {
            assert_eq!((order_id.as_str(), side.as_str(), price_cents), ("b", "no", 52));
        }
        other => panic!("{:?}", other),
    }
    match request_for(&StrategyAction::CancelOrder { order_id: "a".to_string() }, &tracker, TICKER).unwrap() {
        OrderRequest::Cancel { order_id } => assert_eq!(order_id, "a"),
        other => panic!("{:?}", other),
    }
    match request_for(&StrategyAction::CancelAll, &tracker, TICKER).unwrap() {
        OrderRequest::CancelMany { order_ids } => assert_eq!(order_ids, vec!["a", "b"]),
        other => panic!("{:?}", other),
    }
    assert!(!accepts_action(&StrategyAction::PlaceAsk { price_cents: i64::MIN, count: 1 }));
    assert!(accepts_action(&StrategyAction::PlaceAsk { price_cents: 49, count: 1 }));
    assert!(accepts_action(&StrategyAction::PlaceBid { price_cents: i64::MIN, count: 1 }));
}

#[test]
fn placed_order_is_tracked() {
    let mut tracker = OrderTracker::new();
    settle(&mut tracker, &StrategyAction::PlaceAsk { price_cents: 49, count: 1 }, reply("n"), TICKER, 77);
    let new = tracker.resting_ask(TICKER).unwrap();
    assert_eq!((new.order_id.as_str(), new.client_order_id.as_str(), new.side.as_str()), ("n", "k-n", "no"));
    assert_eq!((new.price_cents, new.count, new.remaining, new.created_ms), (51, 1, 1, 77));
    assert_eq!(new.status, OrderStatus::PendingNew);
    settle(&mut tracker, &StrategyAction::PlaceBid { price_cents: 41, count: 1 }, Reply::Failed, TICKER, 78);
    assert!(tracker.resting_bid(TICKER).is_none());
    settle(&mut tracker, &StrategyAction::PlaceBid { price_cents: 41, count: 1 }, reply("m"), TICKER, 79);
    assert_eq!(tracker.resting_bid(TICKER).unwrap().price_cents, 41);
}

#[test]
fn amended_order_gives_way() {
    let mut tracker = in_market(&[("a", "yes"), ("b", "no")]);
    mark_amends(&mut tracker, &vec![amend_bid("a", 42), StrategyAction::CancelAll]);
    assert_eq!(tracker.orders[0].status, OrderStatus::PendingAmend);
    assert_eq!(tracker.orders[1].status, OrderStatus::Resting);
    settle(&mut tracker, &amend_bid("a", 42), Reply::Failed, TICKER, 1);
    assert_eq!(tracker.orders[0].status, OrderStatus::Resting);
    settle(&mut tracker, &amend_bid("a", 42), reply("a2"), TICKER, 2);
    assert_eq!(ids(&tracker), vec!["b", "a2"]);
    assert_eq!(tracker.resting_bid(TICKER).unwrap().price_cents, 42);
    settle(&mut tracker, &amend_ask("b", 52), reply("b"), TICKER, 3);
    assert_eq!(ids(&tracker), vec!["a2", "b"]);
    assert_eq!(tracker.resting_ask(TICKER).unwrap().price_cents, 52);
}

#[test]
fn cancellations() {
    let mut tracker = in_market(&[("a", "yes"), ("b", "no")]);
    let cancel = StrategyAction::CancelOrder { order_id: "a".to_string() };
    settle(&mut tracker, &cancel, Reply::Failed, TICKER, 1);
    assert_eq!(tracker.orders[0].status, OrderStatus::Resting);
    settle(&mut tracker, &cancel, Reply::Done, TICKER, 1);
    assert_eq!(tracker.orders[0].status, OrderStatus::PendingCancel);
    settle(&mut tracker, &StrategyAction::CancelAll, Reply::Failed, TICKER, 1);
    assert_eq!(ids(&tracker), vec!["a"]);
}

#[test]
fn fired_and_settled_agree() {
    for action in [
        StrategyAction::PlaceBid { price_cents: 41, count: 1 },
        StrategyAction::PlaceAsk { price_cents: 49, count: 1 },
        amend_bid("a", 42),
        amend_ask("b", 52),
    ] {
        let mut one = in_market(&[("a", "yes"), ("b", "no")]);
        let mut two = in_market(&[("a", "yes"), ("b", "no")]);
        settle(&mut one, &action, reply("n"), TICKER, 5);
        let (replaced, new) = fired(&action, reply("n"), TICKER, 5).unwrap();
        adopt(&mut two, replaced.as_deref(), new);
        assert_eq!(format!("{:?}", one), format!("{:?}", two));
        assert!(fired(&action, Reply::Failed, TICKER, 5).is_none());
    }
    assert!(fired(&StrategyAction::CancelAll, reply("n"), TICKER, 5).is_none());
    assert!(fired(&StrategyAction::CancelOrder { order_id: "a".to_string() }, Reply::Done, TICKER, 5).is_none());
}

#[test]
fn cancels_come_first() {
    let (cancels, rest) = split_actions(vec![
        amend_bid("a", 42),
        StrategyAction::CancelOrder { order_id: "x".to_string() },
        StrategyAction::PlaceAsk { price_cents: 49, count: 1 },
        StrategyAction::CancelAll,
    ]);
    assert!(matches!(cancels[0], StrategyAction::CancelOrder { .. }));
    assert!(matches!(cancels[1], StrategyAction::CancelAll));
    assert!(matches!(rest[0], StrategyAction::AmendBid { .. }));
    assert!(matches!(rest[1], StrategyAction::PlaceAsk { .. }));
    assert_eq!((cancels.len(), rest.len()), (2, 2));
}

#[test]
fn one_action_goes_alone() {
    assert!(matches!(dispatch(vec![]), Dispatch::Nothing));
    assert!(matches!(dispatch(vec![amend_bid("a", 42)]), Dispatch::Alone(StrategyAction::AmendBid { .. })));
    match dispatch(vec![amend_bid("a", 42), amend_ask("b", 52)]) {
        Dispatch::Together(actions) => {
            assert_eq!(actions.len(), 2);
            assert!(matches!(actions[1], StrategyAction::AmendAsk { .. }));
        }
        other => panic!("{:?}", other),
    }
}

#[test]
fn age_of_the_book() {
    let mut risk = risk();
    assert_eq!(risk.book_age_ms(50), None);
    risk.book_updated(40);
    assert_eq!(risk.book_age_ms(50), Some(10));
    assert_eq!(risk.book_age_ms(30), Some(0));
}

#[test]
fn failed_batch_is_cancelled_one_by_one() {
    let tracker = in_market(&[("a", "yes"), ("b", "no")]);
    let ids = tracker.resting_order_ids(TICKER);
    let next = after_cancel_many(&ids, &Reply::Failed);
    assert_eq!(next.len(), 2);
    for (request, id) in next.iter().zip(["a", "b"]) {
        match request {
            OrderRequest::Cancel { order_id } => assert_eq!(order_id, id),
            other => panic!("{:?}", other),
        }
    }
    assert!(after_cancel_many(&ids, &Reply::Done).is_empty());
    assert!(after_cancel_many(&ids, &reply("x")).is_empty());
    assert!(after_cancel_many(&vec![], &Reply::Failed).is_empty());
}

#[test]
fn no_request_without_working_orders() {
    let mut tracker = tracker_of(vec![order("a", "yes", OrderStatus::PendingCancel, 0)]);
    assert!(request_for(&StrategyAction::CancelAll, &tracker, TICKER).is_none());
    settle(&mut tracker, &StrategyAction::CancelAll, Reply::Done, TICKER, 1);
    assert_eq!(ids(&tracker), vec!["a"]);
}
