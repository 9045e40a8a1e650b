use kalshi_mm::auth::Credentials;
use kalshi_mm::json::{parse_json, Json};
use kalshi_mm::market_data::Side;
use kalshi_mm::ws::{
    after_connection, handshake_headers, message_from_json, on_frame, parse_ws_message, subscribe_cmd, unsubscribe_cmd, Frame,
    FrameStep, WsManager, WsMessage,
};
use std::sync::Arc;

fn cents(s: &str) -> Option<i64> {
    s.parse::<f64>().ok().map(|f| (f * 100.0).round() as i64)
}

fn units(s: &str) -> Option<i64> {
    s.parse::<f64>().ok().map(|f| f.round() as i64)
}

fn parse(text: &str) -> WsMessage {
    parse_ws_message(text, &cents, &units)
}

#[test]
fn snapshot_with_decimals() {
    let text = r#"{"type":"orderbook_snapshot","seq":7,"msg":{"market_ticker":"M",
        "yes_dollars_fp":[["0.40","10.00"],["0.415","2.6"],["x","1"],["0.1"],3,["0.2",5]],
        "yes":[[1,1]],"no":[[55,7],[56],["57","1"],[58.5,1],[-3,4]]}}"#;
    match parse(text) {
        WsMessage::OrderbookSnapshot { market_ticker, yes_levels, no_levels, seq } => {
            assert_eq!(market_ticker, "M");
            assert_eq!(yes_levels, vec![(40, 10), (42, 3)]);
            assert_eq!(no_levels, vec![(55, 7), (-3, 4)]);
            assert_eq!(seq, 7);
        }
        other => panic!("{:?}", other),
    }
}

#[test]
fn snapshot_without_levels() {
    match parse(r#"{"type":"orderbook_snapshot"}"#) {
        WsMessage::OrderbookSnapshot { market_ticker, yes_levels, no_levels, seq } => {
            assert_eq!(market_ticker, "");
            assert!(yes_levels.is_empty() && no_levels.is_empty());
            assert_eq!(seq, 0);
        }
        other => panic!("{:?}", other),
    }
}

#[test]
fn delta_prefers_decimals() {
    match parse(r#"{"type":"orderbook_delta","seq":8,"msg":{"market_ticker":"M","side":"yes","price_dollars":"0.41","price":12,"delta_fp":"bad","delta":-5}}"#) {
        WsMessage::OrderbookDelta { market_ticker, side, price, delta, seq } => {
            assert_eq!(market_ticker, "M");
            assert_eq!(side, Side::Yes);
            assert_eq!(price, 41);
            assert_eq!(delta, -5);
            assert_eq!(seq, 8);
        }
        other => panic!("{:?}", other),
    }
    match parse(r#"{"type":"orderbook_delta","seq":-1,"msg":{"side":"maybe","price":12}}"#) {
        WsMessage::OrderbookDelta { side, price, delta, seq, .. } => {
            assert_eq!(side, Side::No);
            assert_eq!((price, delta, seq), (12, 0, 0));
        }
        other => panic!("{:?}", other),
    }
}

#[test]
fn fill_message() {
    match parse(r#"{"type":"fill","msg":{"trade_id":"t","order_id":"o","market_ticker":"M","side":"no","yes_price":44,"count_fp":"2.00","action":"buy","is_taker":true,"post_position":-3}}"#) {
        WsMessage::Fill { trade_id, order_id, market_ticker, side, yes_price, count, action, is_taker, post_position } => {
            assert_eq!((trade_id.as_str(), order_id.as_str(), market_ticker.as_str()), ("t", "o", "M"));
            assert_eq!((side.as_str(), action.as_str()), ("no", "buy"));
            assert_eq!((yes_price, count, is_taker, post_position), (44, 2, true, -3));
        }
        other => panic!("{:?}", other),
    }
}

#[test]
fn user_order_message() {
    match parse(r#"{"type":"user_order","msg":{"order_id":"o","ticker":"M","status":"resting","side":"yes","fill_count_fp":"1.00"}}"#) {
        WsMessage::UserOrder { order_id, ticker, status, side, remaining_count_fp, fill_count_fp } => {
            assert_eq!((order_id.as_str(), ticker.as_str(), status.as_str(), side.as_str()), ("o", "M", "resting", "yes"));
            assert_eq!((remaining_count_fp.as_str(), fill_count_fp.as_str()), ("0.00", "1.00"));
        }
        other => panic!("{:?}", other),
    }
}

#[test]
fn ticker_trade_subscribed_and_error() {
    match parse(r#"{"type":"ticker","msg":{"market_ticker":"M","yes_bid_dollars":"0.4","yes_ask":45,"price_dollars":"0.43","volume_fp":"1200.4"}}"#) {
        WsMessage::Ticker { yes_bid, yes_ask, price, volume, .. } => assert_eq!((yes_bid, yes_ask, price, volume), (40, 45, 43, 1200)),
        other => panic!("{:?}", other),
    }
    match parse(r#"{"type":"trade","msg":{"market_ticker":"M","yes_price":44,"count":3,"taker_side":"yes"}}"#) {
        WsMessage::Trade { market_ticker, yes_price, count, taker_side } => {
            assert_eq!((market_ticker.as_str(), yes_price, count, taker_side.as_str()), ("M", 44, 3, "yes"));
        }
        other => panic!("{:?}", other),
    }
    match parse(r#"{"type":"subscribed","msg":{"channel":"fill","sid":18446744073709551615}}"#) {
        WsMessage::Subscribed { channel, sid } => assert_eq!((channel.as_str(), sid), ("fill", u64::MAX)),
        other => panic!("{:?}", other),
    }
    match parse(r#"{"type":"error","code":6,"msg":"no such market"}"#) {
        WsMessage::Error { code, message } => assert_eq!((code, message.as_str()), (6, "no such market")),
        other => panic!("{:?}", other),
    }
}

#[test]
fn unknown_text_is_kept() {
    for text in ["not json", "", "[1,2]", "{}", r#"{"type":"pong"}"#, r#"{"type":5}"#] {
        match parse(text) {
            WsMessage::Unknown(kept) => assert_eq!(kept, text),
            other => panic!("{:?}", other),
        }
    }
}

#[test]
fn last_of_repeated_entries_counts() {
    match parse(r#"{"type":"error","type":"error","code":1,"code":2}"#) {
        WsMessage::Error { code, .. } => assert_eq!(code, 2),
        other => panic!("{:?}", other),
    }
    let json = Json::Object(vec![("a".to_string(), Json::Bool(true)), ("a".to_string(), Json::Null)]);
    assert_eq!(json.get("a").as_bool(), None);
}

#[test]
fn message_from_a_built_value() {
    let json = Json::Object(vec![
        ("type".to_string(), Json::Text("error".to_string())),
        ("code".to_string(), Json::Number { signed: Some(4), unsigned: Some(4) }),
    ]);
    match message_from_json(&json, "text", &cents, &units) {
        WsMessage::Error { code, message } => assert_eq!((code, message.as_str()), (4, "")),
        other => panic!("{:?}", other),
    }
}

#[test]
fn json_is_read_layer_by_layer() {
    let json = parse_json(r#"{"a":[1,-2,2.5,"x",true,null,{"b":9223372036854775808}]}"#).unwrap();
    let items = json.get("a").as_array().unwrap();
    assert_eq!(items.len(), 7);
    assert_eq!((items[0].as_i64(), items[0].as_u64()), (Some(1), Some(1)));
    assert_eq!((items[1].as_i64(), items[1].as_u64()), (Some(-2), None));
    assert_eq!((items[2].as_i64(), items[2].as_u64()), (None, None));
    assert_eq!(items[3].as_str(), Some("x"));
    assert_eq!(items[4].as_bool(), Some(true));
    assert!(matches!(items[5], Json::Null));
    assert_eq!((items[6].get("b").as_i64(), items[6].get("b").as_u64()), (None, Some(9223372036854775808)));
    assert!(matches!(json.get("none"), Json::Null));
    assert!(parse_json("{").is_none());
}

#[test]
fn commands_are_written_as_json() {
    assert_eq!(
        subscribe_cmd(1, &["orderbook_delta", "fill"], "KX\"1"),
        r#"{"cmd":"subscribe","id":1,"params":{"channels":["orderbook_delta","fill"],"market_ticker":"KX\"1"}}"#
    );
    assert_eq!(
        unsubscribe_cmd(u64::MAX, &[3, 4]),
        r#"{"cmd":"unsubscribe","id":18446744073709551615,"params":{"sids":[3,4]}}"#
    );
    assert_eq!(unsubscribe_cmd(0, &[]), r#"{"cmd":"unsubscribe","id":0,"params":{"sids":[]}}"#);
}

#[test]
fn commands_can_be_read_back() {
    let json = parse_json(&subscribe_cmd(5, &["trade"], "M\u{e9}\n")).unwrap();
    assert_eq!(json.get("id").as_u64(), Some(5));
    assert_eq!(json.get("cmd").as_str(), Some("subscribe"));
    assert_eq!(json.get("params").get("market_ticker").as_str(), Some("M\u{e9}\n"));
    assert_eq!(json.get("params").get("channels").as_array().unwrap()[0].as_str(), Some("trade"));
}

#[test]
fn session_subscribes_to_five_channels() {
    let creds = Arc::new(Credentials::load("id".to_string(), "pem"));
    assert_eq!((creds.key_id.as_str(), creds.private_key_pem.as_str()), ("id", "pem"));
    let ws = WsManager::new("wss://x".to_string(), creds, "M".to_string());
    assert_eq!(ws.ws_url, "wss://x");
    let commands = ws.subscriptions();
    assert_eq!(
        commands,
        vec![
            subscribe_cmd(1, &["orderbook_delta"], "M"),
            subscribe_cmd(2, &["fill"], "M"),
            subscribe_cmd(3, &["user_orders"], "M"),
            subscribe_cmd(4, &["trade"], "M"),
            subscribe_cmd(5, &["ticker"], "M"),
        ]
    );
}

#[test]
fn every_end_of_a_connection_is_reported() {
    let failed = after_connection(Some("reset by peer"));
    assert_eq!(failed.wait_ms, 1000);
    match failed.notice {
        WsMessage::Error { code, message } => assert_eq!((code, message.as_str()), (0, "WS disconnect: reset by peer")),
        other => panic!("{:?}", other),
    }
    let clean = after_connection(None);
    assert_eq!(clean.wait_ms, 0);
    match clean.notice {
        WsMessage::Error { code, message } => assert_eq!((code, message.as_str()), (0, "WS disconnect: connection closed")),
        other => panic!("{:?}", other),
    }
}

#[test]
fn frames_are_passed_on_ignored_or_end_the_connection() {
    let step = |frame: Frame| on_frame(&frame, &cents, &units);
    match step(Frame::Text(r#"{"type":"error","code":6,"msg":"x"}"#.to_string())) {
        FrameStep::Forward(WsMessage::Error { code, message }) => assert_eq!((code, message.as_str()), (6, "x")),
        other => panic!("{:?}", other),
    }
    assert!(matches!(step(Frame::Other), FrameStep::Ignore));
    assert!(matches!(step(Frame::Close), FrameStep::Stop { failure: None }));
    assert!(matches!(step(Frame::End), FrameStep::Stop { failure: None }));
    match step(Frame::Broken("reset".to_string())) {
        FrameStep::Stop { failure: Some(reason) } => assert_eq!(reason, "reset"),
        other => panic!("{:?}", other),
    }
}

fn manager(address: &str) -> WsManager {
    WsManager::new(address.to_string(), Arc::new(Credentials::load("id".to_string(), "pem")), "M".to_string())
}

#[test]
fn address_gives_the_host() {
    assert_eq!(manager("wss://API.Example.com:8443/ws/v2").host(), Ok(Some("api.example.com".to_string())));
    assert_eq!(manager("mailto:a@b.c").host(), Ok(None));
    assert_eq!(manager("/ws/v2").host(), Err("relative URL without a base".to_string()));
}

#[test]
fn handshake_carries_host_and_signature() {
    let headers = manager("wss://api.example.com/ws/v2").handshake("key", "sig", "123", "nonce").unwrap();
    let expected = [
        ("KALSHI-ACCESS-KEY", "key"),
        ("KALSHI-ACCESS-SIGNATURE", "sig"),
        ("KALSHI-ACCESS-TIMESTAMP", "123"),
        ("Host", "api.example.com"),
        ("Connection", "Upgrade"),
        ("Upgrade", "websocket"),
        ("Sec-WebSocket-Version", "13"),
        ("Sec-WebSocket-Key", "nonce"),
    ];
    let given: Vec<(&str, &str)> = headers.iter().map(|(n, v)| (n.as_str(), v.as_str())).collect();
    assert_eq!(given, expected.to_vec());
    assert_eq!(handshake_headers(None, "k", "s", "t", "n")[3].1, "");
    assert_eq!(manager("no address").handshake("k", "s", "t", "n").unwrap_err(), "relative URL without a base");
}
