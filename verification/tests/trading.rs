use kalshi_mm::clock::{closing_moment, secs_until, Moment};
use kalshi_mm::config::Config;
use kalshi_mm::execution::{OrderStatus, TrackedOrder};
use kalshi_mm::market_data::{Side, TrendDirection};
use kalshi_mm::market_finder::{current_market, first_to_close, Market};
use kalshi_mm::orders::{settle, Reply};
use kalshi_mm::risk::HaltReason;
use kalshi_mm::session::{brought_news, Decision, Event, Outcome, Session, TrendStep};
use kalshi_mm::strategy::StrategyAction;
use kalshi_mm::ws::{after_connection, WsMessage};

const TICKER: &str = "KXBTC15M-1";

fn session() -> Session {
    Session::new(Config::default(), TICKER.to_string(), 0, 0)
}

fn snapshot(ticker: &str, bid: i64, ask: i64, seq: u64) -> WsMessage {
    WsMessage::OrderbookSnapshot {
        market_ticker: ticker.to_string(),
        yes_levels: vec![(bid, 10)],
        no_levels: vec![(100 - ask, 10)],
        seq,
    }
}

fn delta(price: i64, delta: i64, seq: u64) -> WsMessage {
    WsMessage::OrderbookDelta { market_ticker: TICKER.to_string(), side: Side::Yes, price, delta, seq }
}

fn user_order(id: &str, status: &str) -> WsMessage {
    WsMessage::UserOrder {
        order_id: id.to_string(),
        ticker: TICKER.to_string(),
        status: status.to_string(),
        side: "yes".to_string(),
        remaining_count_fp: "0.00".to_string(),
        fill_count_fp: "0.00".to_string(),
    }
}

fn fill(id: &str, count: i64, post_position: i64) -> WsMessage {
    WsMessage::Fill {
        trade_id: "t".to_string(),
        order_id: id.to_string(),
        market_ticker: "ANY".to_string(),
        side: "yes".to_string(),
        yes_price: 41,
        count,
        action: "buy".to_string(),
        is_taker: false,
        post_position,
    }
}

fn disconnect() -> WsMessage {
    WsMessage::Error { code: 0, message: "WS disconnect: reset".to_string() }
}

fn quiet() -> Outcome {
    Outcome { trend: TrendStep::Keep, book_changed: false, got_fill: false, cancel_all: false, rotate: false }
}

fn resting(id: &str) -> TrackedOrder {
    TrackedOrder {
        order_id: id.to_string(),
        client_order_id: format!("c-{}", id),
        ticker: TICKER.to_string(),
        side: "yes".to_string(),
        action: "buy".to_string(),
        price_cents: 41,
        count: 1,
        remaining: 1,
        status: OrderStatus::Resting,
        created_ms: 0,
    }
}

fn hear(session: &mut Session, msg: &WsMessage) -> Outcome {
    assert!(session.accepts_message(msg));
    session.on_message(msg, 0)
}

fn decide(session: &mut Session, news: bool, now_ms: u64) -> Decision {
    assert!(session.accepts_decision(TrendDirection::Flat));
    session.decide(news, TrendDirection::Flat, now_ms)
}

#[test]
fn snapshot_opens_the_book() {
    let mut s = session();
    assert!(matches!(decide(&mut s, true, 0), Decision::Wait));
    let outcome = hear(&mut s, &snapshot(TICKER, 40, 50, 5));
    assert_eq!(outcome, Outcome { trend: TrendStep::Restart { mid_sum: Some(90) }, book_changed: true, ..quiet() });
    assert!(s.book.initialized && s.risk.ws_connected);
    assert_eq!(s.book.seq, 5);
}

#[test]
fn other_markets_are_ignored() {
    let mut s = session();
    assert_eq!(hear(&mut s, &snapshot("OTHER", 40, 50, 5)), quiet());
    assert!(!s.book.initialized);
    assert!(s.risk.ws_connected);
}

#[test]
fn delta_updates_or_ends_the_session() {
    let mut s = session();
    hear(&mut s, &snapshot(TICKER, 40, 50, 5));
    let outcome = hear(&mut s, &delta(42, 3, 6));
    assert_eq!(outcome, Outcome { trend: TrendStep::Update { mid_sum: 92 }, book_changed: true, ..quiet() });
    let crossed = hear(&mut s, &delta(55, 3, 7));
    assert_eq!(crossed, Outcome { book_changed: true, ..quiet() });
    let gap = hear(&mut s, &delta(43, 3, 9));
    assert_eq!(gap, Outcome { cancel_all: true, rotate: true, ..quiet() });
    assert_eq!(s.risk.halted, Some(HaltReason::SequenceGap));
    assert_eq!(s.book.seq, 7);
}

#[test]
fn quotes_are_placed_and_then_kept() {
    let mut s = session();
    hear(&mut s, &snapshot(TICKER, 40, 50, 5));
    match decide(&mut s, true, 1) {
        Decision::Execute(actions) => {
            assert_eq!(actions.len(), 2);
            assert!(matches!(actions[0], StrategyAction::PlaceBid { price_cents: 41, count: 1 }));
            assert!(matches!(actions[1], StrategyAction::PlaceAsk { price_cents: 49, count: 1 }));
            for (action, id) in actions.iter().zip(["b", "a"]) {
                let reply = Reply::Order { order_id: id.to_string(), client_order_id: format!("c-{}", id) };
                settle(&mut s.tracker, action, reply, TICKER, 1);
            }
        }
        other => panic!("{:?}", other),
    }
    assert_eq!((s.last_desired.bid_price, s.last_desired.ask_price), (41, 49));
    assert!(matches!(decide(&mut s, false, 2), Decision::Wait));
    assert!(matches!(decide(&mut s, true, 2), Decision::Wait));
    assert_eq!(s.working_order_ids(), vec!["b", "a"]);
}

#[test]
fn fill_moves_the_position() {
    let mut s = session();
    hear(&mut s, &snapshot(TICKER, 40, 50, 5));
    s.tracker.track(resting("a"));
    assert_eq!(hear(&mut s, &fill("a", 1, 10)), Outcome { got_fill: true, ..quiet() });
    assert_eq!(s.tracker.orders[0].status, OrderStatus::Executed);
    assert_eq!(s.risk.inventory, 10);
    s.tracker.track(resting("b"));
    assert!(matches!(decide(&mut s, true, 1), Decision::CancelAll));
    assert_eq!((s.last_desired.bid_price, s.last_desired.ask_price), (0, 0));
    let ids = s.working_order_ids();
    s.on_all_cancelled(&ids);
    assert!(matches!(decide(&mut s, true, 1), Decision::Wait));
    assert!(!s.accepts_message(&fill("a", i64::MIN, 0)));
}

#[test]
fn reports_of_orders() {
    let mut s = session();
    let mut pending = resting("a");
    pending.status = OrderStatus::PendingNew;
    s.tracker.track(pending);
    s.tracker.track(resting("b"));
    assert_eq!(hear(&mut s, &user_order("a", "resting")), quiet());
    assert_eq!(s.tracker.orders[0].status, OrderStatus::Resting);
    hear(&mut s, &user_order("a", "pending"));
    assert_eq!(s.tracker.orders.len(), 2);
    hear(&mut s, &user_order("a", "canceled"));
    assert_eq!(s.tracker.orders.len(), 1);
    hear(&mut s, &user_order("b", "executed"));
    assert_eq!(s.tracker.orders.len(), 0);
}

#[test]
fn disconnect_stops_trading() {
    let mut s = session();
    hear(&mut s, &snapshot(TICKER, 40, 50, 5));
    assert_eq!(hear(&mut s, &WsMessage::Error { code: 3, message: "busy".to_string() }), quiet());
    assert!(s.book.initialized);
    let outcome = hear(&mut s, &disconnect());
    assert_eq!(outcome, Outcome { trend: TrendStep::Restart { mid_sum: None }, cancel_all: true, ..quiet() });
    assert!(!s.book.initialized && !s.risk.ws_connected && !s.ws_connected_signaled);
    hear(&mut s, &delta(42, 3, 6));
    assert!(s.risk.ws_connected && !s.book.initialized);
    assert!(matches!(decide(&mut s, true, 1), Decision::Wait));
}

#[test]
fn whole_seconds_until_a_moment() {
    let at = |secs: i64, nanos: u32| Moment { secs, nanos };
    assert_eq!(secs_until(at(100, 0), at(10, 0)), 90);
    assert_eq!(secs_until(at(100, 0), at(9, 1)), 90);
    assert_eq!(secs_until(at(10, 0), at(11, 500000000)), -1);
    assert_eq!(secs_until(at(10, 999999999), at(10, 0)), 0);
    assert_eq!(secs_until(at(-100, 0), at(-200, 0)), 100);
    assert_eq!(secs_until(at(i64::MIN, 0), at(i64::MAX, 0)), -18446744073709551615);
}

#[test]
fn seconds_are_those_of_chrono() {
    let texts = [
        "2024-01-01T00:00:00Z",
        "2024-01-01T12:30:59.5Z",
        "2024-01-01T12:30:60.25Z",
        "2024-01-01T20:00:00.75+02:00",
        "2024-01-02T03:00:00-05:00",
        "2016-12-31T23:59:60Z",
        "1969-12-31T23:59:58.1Z",
        "0001-02-03T04:05:06Z",
    ];
    for a in texts {
        for b in texts {
            let there = chrono::DateTime::parse_from_rfc3339(a).unwrap() - chrono::DateTime::parse_from_rfc3339(b).unwrap();
            let here = secs_until(closing_moment(Some(a)).unwrap(), closing_moment(Some(b)).unwrap());
            assert_eq!(here, there.num_seconds() as i128, "{} {}", a, b);
        }
    }
}

#[test]
fn closing_time_is_read() {
    assert_eq!(closing_moment(Some("1970-01-02T00:00:01.5Z")), Some(Moment { secs: 86401, nanos: 500000000 }));
    assert_eq!(closing_moment(Some("1970-01-01T02:00:00+02:00")), Some(Moment { secs: 0, nanos: 0 }));
    assert_eq!(closing_moment(Some("tomorrow")), None);
    assert_eq!(closing_moment(None), None);
}

#[test]
fn session_ends_before_the_close() {
    let s = session();
    let now = Moment { secs: 1000, nanos: 0 };
    let close = |secs: i64| Some(Moment { secs, nanos: 0 });
    assert!(s.should_rotate(close(1090), now));
    assert!(s.should_rotate(close(995), now));
    assert!(!s.should_rotate(close(1091), now));
    assert!(s.should_rotate(close(1091), Moment { secs: 1000, nanos: 1 }));
    assert!(!s.should_rotate(None, now));
}

#[test]
fn session_ends_in_three_ways_only() {
    let now = Moment { secs: 1000, nanos: 0 };
    let round = |secs: i64| Event::Round { close: Some(Moment { secs, nanos: 0 }), now };
    let message = |msg: WsMessage| Event::Message { msg, now_ms: 7 };
    let mut s = Session::new(Config::default(), TICKER.to_string(), -12, 0);
    for event in [
        round(1091),
        Event::Round { close: None, now },
        message(snapshot(TICKER, 40, 50, 5)),
        message(delta(42, 3, 6)),
        message(disconnect()),
        Event::Heard { news: true, trend: TrendDirection::Flat, now_ms: 8 },
        Event::Pause { now_ms: 9 },
    ] {
        assert!(s.accepts_event(&event));
        assert_eq!(s.step(&event).exit, None, "{:?}", event);
    }
    assert_eq!(s.risk.last_book_ms, Some(7));
    let closing = s.step(&round(1090));
    assert_eq!((closing.exit, closing.outcome.cancel_all), (Some(-12), true));
    assert_eq!(s.risk.halted, None);
    let gap = s.step(&message(delta(42, 3, 99)));
    assert_eq!((gap.exit, gap.outcome.cancel_all), (Some(-12), true));
    assert_eq!(s.risk.halted, Some(HaltReason::SequenceGap));
    let closed = s.step(&Event::FeedClosed);
    assert_eq!((closed.exit, closed.outcome.cancel_all), (Some(-12), true));
    assert_eq!(s.risk.halted, Some(HaltReason::WsChannelClosed));
}

#[test]
fn clean_end_of_the_feed_stops_trading() {
    let mut s = session();
    hear(&mut s, &snapshot(TICKER, 40, 50, 5));
    s.tracker.track(resting("a"));
    let outcome = hear(&mut s, &after_connection(None).notice);
    assert!(outcome.cancel_all && !outcome.rotate);
    assert!(!s.book.initialized && !s.risk.should_quote());
}

#[test]
fn session_starts_with_the_day() {
    let mut s = Session::new(Config::default(), TICKER.to_string(), -499, 9);
    assert_eq!((s.risk.daily_pnl_cents, s.last_gc_ms), (-499, 9));
    s.set_position(-3);
    assert_eq!(s.risk.inventory, -3);
}

#[test]
fn old_orders_go_once_a_minute() {
    let mut s = session();
    let mut old = resting("old");
    old.status = OrderStatus::Executed;
    s.tracker.track(old);
    s.tidy(60000);
    assert_eq!((s.tracker.orders.len(), s.last_gc_ms), (1, 0));
    s.tidy(60001);
    assert_eq!((s.tracker.orders.len(), s.last_gc_ms), (1, 60001));
    s.tidy(360002);
    assert_eq!((s.tracker.orders.len(), s.last_gc_ms), (0, 360002));
}

#[test]
fn impossible_messages_are_told() {
    let mut s = session();
    hear(&mut s, &snapshot(TICKER, 40, 50, 5));
    assert!(!s.accepts_message(&delta(40, i64::MAX, 6)));
    assert!(s.accepts_message(&delta(40, i64::MAX, 7)));
    let levels = vec![(1, i64::MAX), (2, 1)];
    let heavy = |ticker: &str| WsMessage::OrderbookSnapshot {
        market_ticker: ticker.to_string(),
        yes_levels: vec![],
        no_levels: levels.clone(),
        seq: 1,
    };
    assert!(!s.accepts_message(&heavy(TICKER)));
    assert!(s.accepts_message(&heavy("OTHER")));
}

#[test]
fn news_of_a_batch() {
    let book = Outcome { book_changed: true, ..quiet() };
    let filled = Outcome { got_fill: true, ..quiet() };
    let cancelled = Outcome { cancel_all: true, ..quiet() };
    assert!(!brought_news(&vec![]));
    assert!(!brought_news(&vec![quiet(), cancelled]));
    assert!(brought_news(&vec![quiet(), book, quiet()]));
    assert!(brought_news(&vec![quiet(), filled]));
}

#[test]
fn market_that_closes_first_is_traded() {
    let market = |ticker: &str, close: Option<&str>| Market {
        ticker: ticker.to_string(),
        title: String::new(),
        close_time: close.map(|c| c.to_string()),
    };
    assert!(current_market(&vec![]).is_none());
    let markets = vec![
        market("open", None),
        market("late", Some("2024-01-01T12:30:00Z")),
        market("soon", Some("2024-01-01T12:15:00.5Z")),
        market("zone", Some("2024-01-01T13:15:00.5+01:00")),
        market("odd", Some("noon")),
    ];
    assert_eq!(current_market(&markets).unwrap().ticker, "soon");
    assert_eq!(current_market(&vec![market("x", None), market("y", Some("noon"))]).unwrap().ticker, "x");
    let at = |secs: i64, nanos: u32| Some(Moment { secs, nanos });
    assert_eq!(first_to_close(&vec![None, at(5, 2), at(5, 1), at(5, 1), at(6, 0)]), Some(2));
    assert_eq!(first_to_close(&vec![]), None);
}
