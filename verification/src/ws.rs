//! The messages of the exchange's feed, and the commands to it.

use crate::auth::Credentials;
use crate::env_file::settings_view;
use crate::json::{
    array_value, items_of, json_text, json_value, member, number_value, number_view, object_of, object_value, parse_json, plain,
    signed_of, text_of, text_value, truth_of, unsigned_of, value_text, value_view, Json, JsonView,
};
use crate::market_data::Side;
use crate::text::same_text;
use std::sync::Arc;
use vstd::prelude::*;
use vstd::string::*;

verus! {

#[derive(Debug, Clone)]
pub enum WsMessage {
    OrderbookSnapshot { market_ticker: String, yes_levels: Vec<(i64, i64)>, no_levels: Vec<(i64, i64)>, seq: u64 },
    OrderbookDelta { market_ticker: String, side: Side, price: i64, delta: i64, seq: u64 },
    Fill {
        trade_id: String,
        order_id: String,
        market_ticker: String,
        side: String,
        yes_price: i64,
        count: i64,
        action: String,
        is_taker: bool,
        post_position: i64,
    },
    UserOrder {
        order_id: String,
        ticker: String,
        status: String,
        side: String,
        remaining_count_fp: String,
        fill_count_fp: String,
    },
    Ticker { market_ticker: String, yes_bid: i64, yes_ask: i64, price: i64, volume: i64 },
    Trade { market_ticker: String, yes_price: i64, count: i64, taker_side: String },
    Subscribed { channel: String, sid: u64 },
    Error { code: u64, message: String },
    Unknown(String),
}

/// What a [`WsMessage`] says.
#[verifier::ext_equal]
pub enum MessageView {
    OrderbookSnapshot { market_ticker: Seq<char>, yes_levels: Seq<(i64, i64)>, no_levels: Seq<(i64, i64)>, seq: u64 },
    OrderbookDelta { market_ticker: Seq<char>, side: Side, price: i64, delta: i64, seq: u64 },
    Fill {
        trade_id: Seq<char>,
        order_id: Seq<char>,
        market_ticker: Seq<char>,
        side: Seq<char>,
        yes_price: i64,
        count: i64,
        action: Seq<char>,
        is_taker: bool,
        post_position: i64,
    },
    UserOrder {
        order_id: Seq<char>,
        ticker: Seq<char>,
        status: Seq<char>,
        side: Seq<char>,
        remaining_count_fp: Seq<char>,
        fill_count_fp: Seq<char>,
    },
    Ticker { market_ticker: Seq<char>, yes_bid: i64, yes_ask: i64, price: i64, volume: i64 },
    Trade { market_ticker: Seq<char>, yes_price: i64, count: i64, taker_side: Seq<char> },
    Subscribed { channel: Seq<char>, sid: u64 },
    Error { code: u64, message: Seq<char> },
    Unknown(Seq<char>),
}

impl View for WsMessage {
    type V = MessageView;

    open spec fn view(&self) -> MessageView {
        match self {
            WsMessage::OrderbookSnapshot { market_ticker, yes_levels, no_levels, seq } => MessageView::OrderbookSnapshot {
                market_ticker: market_ticker@,
                yes_levels: yes_levels@,
                no_levels: no_levels@,
                seq: *seq,
            },
            WsMessage::OrderbookDelta { market_ticker, side, price, delta, seq } => MessageView::OrderbookDelta {
                market_ticker: market_ticker@,
                side: *side,
                price: *price,
                delta: *delta,
                seq: *seq,
            },
            WsMessage::Fill {
                trade_id,
                order_id,
                market_ticker,
                side,
                yes_price,
                count,
                action,
                is_taker,
                post_position,
            } => MessageView::Fill {
                trade_id: trade_id@,
                order_id: order_id@,
                market_ticker: market_ticker@,
                side: side@,
                yes_price: *yes_price,
                count: *count,
                action: action@,
                is_taker: *is_taker,
                post_position: *post_position,
            },
            WsMessage::UserOrder { order_id, ticker, status, side, remaining_count_fp, fill_count_fp } => MessageView::UserOrder {
                order_id: order_id@,
                ticker: ticker@,
                status: status@,
                side: side@,
                remaining_count_fp: remaining_count_fp@,
                fill_count_fp: fill_count_fp@,
            },
            WsMessage::Ticker { market_ticker, yes_bid, yes_ask, price, volume } => MessageView::Ticker {
                market_ticker: market_ticker@,
                yes_bid: *yes_bid,
                yes_ask: *yes_ask,
                price: *price,
                volume: *volume,
            },
            WsMessage::Trade { market_ticker, yes_price, count, taker_side } => MessageView::Trade {
                market_ticker: market_ticker@,
                yes_price: *yes_price,
                count: *count,
                taker_side: taker_side@,
            },
            WsMessage::Subscribed { channel, sid } => MessageView::Subscribed { channel: channel@, sid: *sid },
            WsMessage::Error { code, message } => MessageView::Error { code: *code, message: message@ },
            WsMessage::Unknown(text) => MessageView::Unknown(text@),
        }
    }
}

/// Whether whatever `read` makes of a text is what `meaning` says.
pub open spec fn reads<F: Fn(&str) -> Option<i64>>(read: F, meaning: spec_fn(Seq<char>) -> Option<i64>) -> bool {
    forall|s: &str, r: Option<i64>| #[trigger] call_ensures(read, (s,), r) ==> r == meaning(s@)
}

/// Whether `read` can be asked of every text.
pub open spec fn reads_all<F: Fn(&str) -> Option<i64>>(read: F) -> bool {
    forall|s: &str| #[trigger] call_requires(read, (s,))
}

/// The text in the entry `name`, or else `default`.
pub open spec fn text_or(msg: JsonView, name: Seq<char>, default: Seq<char>) -> Seq<char> {
    match text_of(member(msg, name)) {
        Some(s) => s,
        None => default,
    }
}

/// The whole number in the entry `name`, or else 0.
pub open spec fn whole_or_zero(msg: JsonView, name: Seq<char>) -> i64 {
    match signed_of(member(msg, name)) {
        Some(n) => n,
        None => 0,
    }
}

/// The natural number in the entry `name`, or else 0.
pub open spec fn natural_or_zero(msg: JsonView, name: Seq<char>) -> u64 {
    match unsigned_of(member(msg, name)) {
        Some(n) => n,
        None => 0,
    }
}

/// An amount: what the decimal text in the entry `decimal` means, where it means anything, or else
/// the whole number in the entry `whole`, or else 0.
pub open spec fn amount_of(
    msg: JsonView,
    decimal: Seq<char>,
    whole: Seq<char>,
    meaning: spec_fn(Seq<char>) -> Option<i64>,
) -> i64 {
    match text_of(member(msg, decimal)) {
        Some(s) => match meaning(s) {
            Some(n) => n,
            None => whole_or_zero(msg, whole),
        },
        None => whole_or_zero(msg, whole),
    }
}

/// A price and a quantity, both written as decimals, where the item is such a pair.
pub open spec fn decimal_level(
    item: JsonView,
    cents: spec_fn(Seq<char>) -> Option<i64>,
    units: spec_fn(Seq<char>) -> Option<i64>,
) -> Option<(i64, i64)> {
    match items_of(item) {
        Some(pair) => if pair.len() < 2 {
            None
        } else {
            match (text_of(pair[0]), text_of(pair[1])) {
                (Some(price), Some(quantity)) => match (cents(price), units(quantity)) {
                    (Some(p), Some(q)) => Some((p, q)),
                    _ => None,
                },
                _ => None,
            }
        },
        None => None,
    }
}

/// A price and a quantity, both whole numbers, where the item is such a pair.
pub open spec fn whole_level(item: JsonView) -> Option<(i64, i64)> {
    match items_of(item) {
        Some(pair) => if pair.len() < 2 {
            None
        } else {
            match (signed_of(pair[0]), signed_of(pair[1])) {
                (Some(p), Some(q)) => Some((p, q)),
                _ => None,
            }
        },
        None => None,
    }
}

/// The levels that items make, in order, without the items that make none.
pub open spec fn levels_of(items: Seq<JsonView>, level: spec_fn(JsonView) -> Option<(i64, i64)>) -> Seq<(i64, i64)>
    decreases items.len(),
{
    if items.len() == 0 {
        Seq::empty()
    } else {
        let front = levels_of(items.drop_last(), level);
        match level(items.last()) {
            Some(l) => front.push(l),
            None => front,
        }
    }
}

/// The levels of one side of a snapshot: those of the list `decimal`, where there is one, or else
/// those of the list `whole`.
pub open spec fn snapshot_levels(
    msg: JsonView,
    decimal: Seq<char>,
    whole: Seq<char>,
    cents: spec_fn(Seq<char>) -> Option<i64>,
    units: spec_fn(Seq<char>) -> Option<i64>,
) -> Seq<(i64, i64)> {
    match items_of(member(msg, decimal)) {
        Some(items) => levels_of(items, |item: JsonView| decimal_level(item, cents, units)),
        None => match items_of(member(msg, whole)) {
            Some(items) => levels_of(items, |item: JsonView| whole_level(item)),
            None => Seq::empty(),
        },
    }
}

/// No decimal text means anything.
pub open spec fn unread() -> spec_fn(Seq<char>) -> Option<i64> {
    |s: Seq<char>| None
}

/// The message that a JSON value makes; the text is kept of a value of no known type. `cents` and
/// `units` say what decimal texts mean as prices and as quantities.
pub open spec fn message_of(
    v: JsonView,
    text: Seq<char>,
    cents: spec_fn(Seq<char>) -> Option<i64>,
    units: spec_fn(Seq<char>) -> Option<i64>,
) -> MessageView {
    let kind = text_or(v, "type"@, ""@);
    let msg = member(v, "msg"@);
    if kind == "orderbook_snapshot"@ {
        MessageView::OrderbookSnapshot {
            market_ticker: text_or(msg, "market_ticker"@, ""@),
            yes_levels: snapshot_levels(msg, "yes_dollars_fp"@, "yes"@, cents, units),
            no_levels: snapshot_levels(msg, "no_dollars_fp"@, "no"@, cents, units),
            seq: natural_or_zero(v, "seq"@),
        }
    } else if kind == "orderbook_delta"@ {
        MessageView::OrderbookDelta {
            market_ticker: text_or(msg, "market_ticker"@, ""@),
            side: if text_or(msg, "side"@, ""@) == "yes"@ {
                Side::Yes
            } else {
                Side::No
            },
            price: amount_of(msg, "price_dollars"@, "price"@, cents),
            delta: amount_of(msg, "delta_fp"@, "delta"@, units),
            seq: natural_or_zero(v, "seq"@),
        }
    } else if kind == "fill"@ {
        MessageView::Fill {
            trade_id: text_or(msg, "trade_id"@, ""@),
            order_id: text_or(msg, "order_id"@, ""@),
            market_ticker: text_or(msg, "market_ticker"@, ""@),
            side: text_or(msg, "side"@, ""@),
            yes_price: amount_of(msg, "yes_price_dollars"@, "yes_price"@, cents),
            count: amount_of(msg, "count_fp"@, "count"@, units),
            action: text_or(msg, "action"@, ""@),
            is_taker: truth_of(member(msg, "is_taker"@)) == Some(true),
            post_position: whole_or_zero(msg, "post_position"@),
        }
    } else if kind == "user_order"@ {
        MessageView::UserOrder {
            order_id: text_or(msg, "order_id"@, ""@),
            ticker: text_or(msg, "ticker"@, ""@),
            status: text_or(msg, "status"@, ""@),
            side: text_or(msg, "side"@, ""@),
            remaining_count_fp: text_or(msg, "remaining_count_fp"@, "0.00"@),
            fill_count_fp: text_or(msg, "fill_count_fp"@, "0.00"@),
        }
    } else if kind == "ticker"@ {
        MessageView::Ticker {
            market_ticker: text_or(msg, "market_ticker"@, ""@),
            yes_bid: amount_of(msg, "yes_bid_dollars"@, "yes_bid"@, cents),
            yes_ask: amount_of(msg, "yes_ask_dollars"@, "yes_ask"@, cents),
            price: amount_of(msg, "price_dollars"@, "price"@, cents),
            volume: amount_of(msg, "volume_fp"@, "volume"@, units),
        }
    } else if kind == "trade"@ {
        MessageView::Trade {
            market_ticker: text_or(msg, "market_ticker"@, ""@),
            yes_price: amount_of(msg, "yes_price_dollars"@, "yes_price"@, cents),
            count: amount_of(msg, "count_fp"@, "count"@, units),
            taker_side: text_or(msg, "taker_side"@, ""@),
        }
    } else if kind == "subscribed"@ {
        MessageView::Subscribed { channel: text_or(msg, "channel"@, ""@), sid: natural_or_zero(msg, "sid"@) }
    } else if kind == "error"@ {
        MessageView::Error { code: natural_or_zero(v, "code"@), message: text_or(v, "msg"@, ""@) }
    } else {
        MessageView::Unknown(text)
    }
}

/// Whether `m` is the message that a JSON value makes, but for amounts that are written as decimals.
pub open spec fn agrees(m: MessageView, v: JsonView, text: Seq<char>) -> bool {
    let msg = member(v, "msg"@);
    let whole = |decimal: Seq<char>| text_of(member(msg, decimal)) is None;
    let no_list = |decimal: Seq<char>| items_of(member(msg, decimal)) is None;
    match (m, message_of(v, text, unread(), unread())) {
        (
            MessageView::OrderbookSnapshot { market_ticker, yes_levels, no_levels, seq },
            MessageView::OrderbookSnapshot { market_ticker: ticker, yes_levels: yes, no_levels: no, seq: number },
        ) => {
            &&& market_ticker == ticker
            &&& seq == number
            &&& no_list("yes_dollars_fp"@) ==> yes_levels == yes
            &&& no_list("no_dollars_fp"@) ==> no_levels == no
        },
        (
            MessageView::OrderbookDelta { market_ticker, side, price, delta, seq },
            MessageView::OrderbookDelta { market_ticker: ticker, side: of, price: cents, delta: units, seq: number },
        ) => {
            &&& market_ticker == ticker
            &&& side == of
            &&& seq == number
            &&& whole("price_dollars"@) ==> price == cents
            &&& whole("delta_fp"@) ==> delta == units
        },
        (
            MessageView::Fill { yes_price, count, .. },
            MessageView::Fill {
                trade_id,
                order_id,
                market_ticker,
                side,
                yes_price: cents,
                count: units,
                action,
                is_taker,
                post_position,
            },
        ) => {
            &&& m == (MessageView::Fill {
                trade_id,
                order_id,
                market_ticker,
                side,
                yes_price,
                count,
                action,
                is_taker,
                post_position,
            })
            &&& whole("yes_price_dollars"@) ==> yes_price == cents
            &&& whole("count_fp"@) ==> count == units
        },
        (
            MessageView::Ticker { market_ticker, yes_bid, yes_ask, price, volume },
            MessageView::Ticker { market_ticker: ticker, yes_bid: bid, yes_ask: ask, price: cents, volume: units },
        ) => {
            &&& market_ticker == ticker
            &&& whole("yes_bid_dollars"@) ==> yes_bid == bid
            &&& whole("yes_ask_dollars"@) ==> yes_ask == ask
            &&& whole("price_dollars"@) ==> price == cents
            &&& whole("volume_fp"@) ==> volume == units
        },
        (
            MessageView::Trade { market_ticker, yes_price, count, taker_side },
            MessageView::Trade { market_ticker: ticker, yes_price: cents, count: units, taker_side: taker },
        ) => {
            &&& market_ticker == ticker
            &&& taker_side == taker
            &&& whole("yes_price_dollars"@) ==> yes_price == cents
            &&& whole("count_fp"@) ==> count == units
        },
        (given, made) => given == made,
    }
}

/// Whether `m` is the message that a JSON value makes where `cents` and `units` read its decimals.
/// Where these read each text in one way, the message is fixed; whatever they read, it agrees with
/// the value in all else.
pub open spec fn made_from<C: Fn(&str) -> Option<i64>, U: Fn(&str) -> Option<i64>>(
    m: MessageView,
    v: JsonView,
    text: Seq<char>,
    cents: C,
    units: U,
) -> bool {
    &&& agrees(m, v, text)
    &&& forall|c: spec_fn(Seq<char>) -> Option<i64>, u: spec_fn(Seq<char>) -> Option<i64>|
        #[trigger] reads(cents, c) && #[trigger] reads(units, u) ==> m == message_of(v, text, c, u)
}

/// Whether `m` is the message that a text of the feed carries; a text that is no JSON is kept as it
/// is.
pub open spec fn carried_by<C: Fn(&str) -> Option<i64>, U: Fn(&str) -> Option<i64>>(
    m: MessageView,
    text: Seq<char>,
    cents: C,
    units: U,
) -> bool {
    match json_value(text) {
        Some(v) => made_from(m, v, text, cents, units),
        None => m == MessageView::Unknown(text),
    }
}

fn get_text(msg: &Json, name: &str, default: &str) -> (r: String)
    ensures
        r@ == text_or(msg@, name@, default@),
{
    match msg.get(name).as_str() {
        Some(s) => s.to_owned(),
        None => default.to_owned(),
    }
}

fn get_whole(msg: &Json, name: &str) -> (r: i64)
    ensures
        r == whole_or_zero(msg@, name@),
{
    match msg.get(name).as_i64() {
        Some(n) => n,
        None => 0,
    }
}

fn get_natural(msg: &Json, name: &str) -> (r: u64)
    ensures
        r == natural_or_zero(msg@, name@),
{
    match msg.get(name).as_u64() {
        Some(n) => n,
        None => 0,
    }
}

fn get_amount<F: Fn(&str) -> Option<i64>>(msg: &Json, decimal: &str, whole: &str, read: &F) -> (r: i64)
    requires
        reads_all(*read),
    ensures
        forall|meaning: spec_fn(Seq<char>) -> Option<i64>| #[trigger]
            reads(*read, meaning) ==> r == amount_of(msg@, decimal@, whole@, meaning),
        text_of(member(msg@, decimal@)) is None ==> r == whole_or_zero(msg@, whole@),
{
    if let Some(s) = msg.get(decimal).as_str() {
        if let Some(n) = read(s) {
            return n;
        }
    }
    get_whole(msg, whole)
}

fn read_decimal_level<C: Fn(&str) -> Option<i64>, U: Fn(&str) -> Option<i64>>(
    item: &Json,
    cents: &C,
    units: &U,
) -> (r: Option<(i64, i64)>)
    requires
        reads_all(*cents),
        reads_all(*units),
    ensures
        forall|c: spec_fn(Seq<char>) -> Option<i64>, u: spec_fn(Seq<char>) -> Option<i64>|
            #[trigger] reads(*cents, c) && #[trigger] reads(*units, u) ==> r == decimal_level(item@, c, u),
{
    match item.as_array() {
        Some(pair) => {
            if pair.len() < 2 {
                return None;
            }
            match (pair[0].as_str(), pair[1].as_str()) {
                (Some(price), Some(quantity)) => match (cents(price), units(quantity)) {
                    (Some(p), Some(q)) => Some((p, q)),
                    _ => None,
                },
                _ => None,
            }
        },
        None => None,
    }
}

fn read_whole_level(item: &Json) -> (r: Option<(i64, i64)>)
    ensures
        r == whole_level(item@),
{
    match item.as_array() {
        Some(pair) => {
            if pair.len() < 2 {
                return None;
            }
            match (pair[0].as_i64(), pair[1].as_i64()) {
                (Some(p), Some(q)) => Some((p, q)),
                _ => None,
            }
        },
        None => None,
    }
}

fn parse_snapshot_levels<C: Fn(&str) -> Option<i64>, U: Fn(&str) -> Option<i64>>(
    msg: &Json,
    decimal: &str,
    whole: &str,
    cents: &C,
    units: &U,
) -> (r: Vec<(i64, i64)>)
    requires
        reads_all(*cents),
        reads_all(*units),
    ensures
        forall|c: spec_fn(Seq<char>) -> Option<i64>, u: spec_fn(Seq<char>) -> Option<i64>|
            #[trigger] reads(*cents, c) && #[trigger] reads(*units, u) ==> r@ == snapshot_levels(
                msg@,
                decimal@,
                whole@,
                c,
                u,
            ),
        items_of(member(msg@, decimal@)) is None ==> r@ == snapshot_levels(msg@, decimal@, whole@, unread(), unread()),
{
    let mut levels: Vec<(i64, i64)> = Vec::new();
    let mut i: usize = 0;
    if let Some(items) = msg.get(decimal).as_array() {
        let ghost views = items_of(member(msg@, decimal@))->0;
        assert(views.take(0) =~= Seq::empty());
        while i < items.len()
            invariant
                reads_all(*cents),
                reads_all(*units),
                i <= items@.len(),
                items@.len() == views.len(),
                forall|k: int| 0 <= k < items@.len() ==> (#[trigger] items@[k])@ == views[k],
                forall|c: spec_fn(Seq<char>) -> Option<i64>, u: spec_fn(Seq<char>) -> Option<i64>|
                    #[trigger] reads(*cents, c) && #[trigger] reads(*units, u) ==> levels@ == levels_of(
                        views.take(i as int),
                        |item: JsonView| decimal_level(item, c, u),
                    ),
            decreases items.len() - i,
        {
            assert(views.take(i + 1).drop_last() =~= views.take(i as int));
            assert(views.take(i + 1).last() == items@[i as int]@);
            if let Some(level) = read_decimal_level(&items[i], cents, units) {
                levels.push(level);
            }
            i = i + 1;
        }
        assert(views.take(i as int) =~= views);
    } else if let Some(items) = msg.get(whole).as_array() {
        let ghost views = items_of(member(msg@, whole@))->0;
        let ghost level_of = |item: JsonView| whole_level(item);
        assert(views.take(0) =~= Seq::empty());
        while i < items.len()
            invariant
                i <= items@.len(),
                items@.len() == views.len(),
                forall|k: int| 0 <= k < items@.len() ==> (#[trigger] items@[k])@ == views[k],
                level_of == (|item: JsonView| whole_level(item)),
                levels@ == levels_of(views.take(i as int), level_of),
            decreases items.len() - i,
        {
            assert(views.take(i + 1).drop_last() =~= views.take(i as int));
            assert(views.take(i + 1).last() == items@[i as int]@);
            if let Some(level) = read_whole_level(&items[i]) {
                levels.push(level);
            }
            i = i + 1;
        }
        assert(views.take(i as int) =~= views);
    }
    levels
}

/// The message that a JSON value makes. `text` is what the value was read from; `cents` reads a
/// decimal text as a price, `units` as a quantity.
pub fn message_from_json<C: Fn(&str) -> Option<i64>, U: Fn(&str) -> Option<i64>>(
    v: &Json,
    text: &str,
    cents: &C,
    units: &U,
) -> (r: WsMessage)
    requires
        reads_all(*cents),
        reads_all(*units),
    ensures
        made_from(r@, v@, text@, *cents, *units),
{
    let kind: String = get_text(v, "type", "");
    let kind: &str = kind.as_str();
    let msg: &Json = v.get("msg");
    if same_text(kind, "orderbook_snapshot") {
        WsMessage::OrderbookSnapshot {
            market_ticker: get_text(msg, "market_ticker", ""),
            yes_levels: parse_snapshot_levels(msg, "yes_dollars_fp", "yes", cents, units),
            no_levels: parse_snapshot_levels(msg, "no_dollars_fp", "no", cents, units),
            seq: get_natural(v, "seq"),
        }
    } else if same_text(kind, "orderbook_delta") {
        WsMessage::OrderbookDelta {
            market_ticker: get_text(msg, "market_ticker", ""),
            side: if same_text(get_text(msg, "side", "").as_str(), "yes") {
                Side::Yes
            } else {
                Side::No
            },
            price: get_amount(msg, "price_dollars", "price", cents),
            delta: get_amount(msg, "delta_fp", "delta", units),
            seq: get_natural(v, "seq"),
        }
    } else if same_text(kind, "fill") {
        WsMessage::Fill {
            trade_id: get_text(msg, "trade_id", ""),
            order_id: get_text(msg, "order_id", ""),
            market_ticker: get_text(msg, "market_ticker", ""),
            side: get_text(msg, "side", ""),
            yes_price: get_amount(msg, "yes_price_dollars", "yes_price", cents),
            count: get_amount(msg, "count_fp", "count", units),
            action: get_text(msg, "action", ""),
            is_taker: match msg.get("is_taker").as_bool() {
                Some(b) => b,
                None => false,
            },
            post_position: get_whole(msg, "post_position"),
        }
    } else if same_text(kind, "user_order") {
        WsMessage::UserOrder {
            order_id: get_text(msg, "order_id", ""),
            ticker: get_text(msg, "ticker", ""),
            status: get_text(msg, "status", ""),
            side: get_text(msg, "side", ""),
            remaining_count_fp: get_text(msg, "remaining_count_fp", "0.00"),
            fill_count_fp: get_text(msg, "fill_count_fp", "0.00"),
        }
    } else if same_text(kind, "ticker") {
        WsMessage::Ticker {
            market_ticker: get_text(msg, "market_ticker", ""),
            yes_bid: get_amount(msg, "yes_bid_dollars", "yes_bid", cents),
            yes_ask: get_amount(msg, "yes_ask_dollars", "yes_ask", cents),
            price: get_amount(msg, "price_dollars", "price", cents),
            volume: get_amount(msg, "volume_fp", "volume", units),
        }
    } else if same_text(kind, "trade") {
        WsMessage::Trade {
            market_ticker: get_text(msg, "market_ticker", ""),
            yes_price: get_amount(msg, "yes_price_dollars", "yes_price", cents),
            count: get_amount(msg, "count_fp", "count", units),
            taker_side: get_text(msg, "taker_side", ""),
        }
    } else if same_text(kind, "subscribed") {
        WsMessage::Subscribed { channel: get_text(msg, "channel", ""), sid: get_natural(msg, "sid") }
    } else if same_text(kind, "error") {
        WsMessage::Error { code: get_natural(v, "code"), message: get_text(v, "msg", "") }
    } else {
        WsMessage::Unknown(text.to_owned())
    }
}

/// The message that a frame of the feed carries; a text that is no JSON is kept as it is.
pub fn parse_ws_message<C: Fn(&str) -> Option<i64>, U: Fn(&str) -> Option<i64>>(
    text: &str,
    cents: &C,
    units: &U,
) -> (r: WsMessage)
    requires
        reads_all(*cents),
        reads_all(*units),
    ensures
        carried_by(r@, text@, *cents, *units),
{
    match parse_json(text) {
        Some(v) => message_from_json(&v, text, cents, units),
        None => WsMessage::Unknown(text.to_owned()),
    }
}

/// The command to subscribe to channels of the feed for one market.
pub open spec fn subscribe_view(id: u64, channels: Seq<Seq<char>>, market_ticker: Seq<char>) -> JsonView {
    JsonView::Object(
        map![
            "id"@ => number_view(id),
            "cmd"@ => JsonView::Text("subscribe"@),
            "params"@ => JsonView::Object(
                map![
                    "channels"@ => JsonView::Array(channels.map_values(|channel: Seq<char>| JsonView::Text(channel))),
                    "market_ticker"@ => JsonView::Text(market_ticker),
                ],
            ),
        ],
    )
}

/// The command to end subscriptions.
pub open spec fn unsubscribe_view(id: u64, sids: Seq<u64>) -> JsonView {
    JsonView::Object(
        map![
            "id"@ => number_view(id),
            "cmd"@ => JsonView::Text("unsubscribe"@),
            "params"@ => JsonView::Object(
                map!["sids"@ => JsonView::Array(sids.map_values(|sid: u64| number_view(sid)))],
            ),
        ],
    )
}

/// Names, as plain sequences of characters.
pub open spec fn names_view(names: Seq<&str>) -> Seq<Seq<char>> {
    names.map_values(|name: &str| name@)
}

proof fn lemma_two_entries(a: (Seq<char>, JsonView), b: (Seq<char>, JsonView))
    ensures
        object_of(seq![a, b]) == map![a.0 => a.1, b.0 => b.1],
        object_of(seq![a]) == map![a.0 => a.1],
{
    reveal_with_fuel(object_of, 3);
    assert(seq![a, b].drop_last() =~= seq![a]);
    assert(seq![a].drop_last() =~= Seq::empty());
}

proof fn lemma_three_entries(a: (Seq<char>, JsonView), b: (Seq<char>, JsonView), c: (Seq<char>, JsonView))
    ensures
        object_of(seq![a, b, c]) == map![a.0 => a.1, b.0 => b.1, c.0 => c.1],
{
    lemma_two_entries(a, b);
    assert(seq![a, b, c].drop_last() =~= seq![a, b]);
}

/// A command: its number, its name and its parameters.
fn command(id: u64, cmd: &str, params: serde_json::Value) -> (r: String)
    requires
        plain(value_view(params), 99),
    ensures
        ({
            let view = JsonView::Object(
                map!["id"@ => number_view(id), "cmd"@ => JsonView::Text(cmd@), "params"@ => value_view(params)],
            );
            r@ == json_text(view) && json_value(r@) == Some(view)
        }),
{
    let ghost given = value_view(params);
    let mut entries: Vec<(String, serde_json::Value)> = Vec::new();
    entries.push(("id".to_owned(), number_value(id)));
    entries.push(("cmd".to_owned(), text_value(cmd)));
    entries.push(("params".to_owned(), params));
    let ghost views = entries@.map_values(|entry: (String, serde_json::Value)| (entry.0@, value_view(entry.1)));
    proof {
        assert(views =~= seq![("id"@, number_view(id)), ("cmd"@, JsonView::Text(cmd@)), ("params"@, given)]);
        lemma_three_entries(("id"@, number_view(id)), ("cmd"@, JsonView::Text(cmd@)), ("params"@, given));
        reveal_strlit("id");
        reveal_strlit("cmd");
        reveal_strlit("params");
        assert("id"@.len() == 2 && "cmd"@.len() == 3 && "params"@.len() == 6);
    }
    let value: serde_json::Value = object_value(entries);
    proof {
        let view = value_view(value);
        assert forall|name: Seq<char>| view->Object_0.dom().contains(name) implies plain(#[trigger] view->Object_0[name], 99) by {
            assert(name == "id"@ || name == "cmd"@ || name == "params"@);
        }
    }
    value_text(&value)
}

/// The command, written as JSON, to subscribe to `channels` for one market.
pub fn subscribe_cmd(id: u64, channels: &[&str], market_ticker: &str) -> (r: String)
    ensures
        r@ == json_text(subscribe_view(id, names_view(channels@), market_ticker@)),
        json_value(r@) == Some(subscribe_view(id, names_view(channels@), market_ticker@)),
{
    let ghost texts = names_view(channels@).map_values(|channel: Seq<char>| JsonView::Text(channel));
    let mut items: Vec<serde_json::Value> = Vec::new();
    let mut i: usize = 0;
    while i < channels.len()
        invariant
            i <= channels@.len(),
            items@.len() == i,
            texts == names_view(channels@).map_values(|channel: Seq<char>| JsonView::Text(channel)),
            forall|k: int| 0 <= k < i ==> value_view(#[trigger] items@[k]) == texts[k],
        decreases channels.len() - i,
    {
        items.push(text_value(channels[i]));
        i = i + 1;
    }
    proof {
        assert(items@.map_values(|item: serde_json::Value| value_view(item)) =~= texts);
    }
    let mut params: Vec<(String, serde_json::Value)> = Vec::new();
    params.push(("channels".to_owned(), array_value(items)));
    params.push(("market_ticker".to_owned(), text_value(market_ticker)));
    let ghost views = params@.map_values(|entry: (String, serde_json::Value)| (entry.0@, value_view(entry.1)));
    proof {
        assert(views =~= seq![("channels"@, JsonView::Array(texts)), ("market_ticker"@, JsonView::Text(market_ticker@))]);
        lemma_two_entries(("channels"@, JsonView::Array(texts)), ("market_ticker"@, JsonView::Text(market_ticker@)));
        reveal_strlit("channels");
        reveal_strlit("market_ticker");
        assert("channels"@.len() == 8 && "market_ticker"@.len() == 13);
    }
    let params: serde_json::Value = object_value(params);
    proof {
        let view = value_view(params);
        assert forall|i: int| 0 <= i < texts.len() implies plain(#[trigger] texts[i], 97) by {}
        assert(plain(JsonView::Array(texts), 98));
        assert forall|name: Seq<char>| view->Object_0.dom().contains(name) implies plain(#[trigger] view->Object_0[name], 98) by {
            assert(name == "channels"@ || name == "market_ticker"@);
        }
    }
    command(id, "subscribe", params)
}

/// The command, written as JSON, to end the subscriptions `sids`.
pub fn unsubscribe_cmd(id: u64, sids: &[u64]) -> (r: String)
    ensures
        r@ == json_text(unsubscribe_view(id, sids@)),
        json_value(r@) == Some(unsubscribe_view(id, sids@)),
{
    let ghost numbers = sids@.map_values(|sid: u64| number_view(sid));
    let mut items: Vec<serde_json::Value> = Vec::new();
    let mut i: usize = 0;
    while i < sids.len()
        invariant
            i <= sids@.len(),
            items@.len() == i,
            numbers == sids@.map_values(|sid: u64| number_view(sid)),
            forall|k: int| 0 <= k < i ==> value_view(#[trigger] items@[k]) == numbers[k],
        decreases sids.len() - i,
    {
        items.push(number_value(sids[i]));
        i = i + 1;
    }
    proof {
        assert(items@.map_values(|item: serde_json::Value| value_view(item)) =~= numbers);
    }
    let mut params: Vec<(String, serde_json::Value)> = Vec::new();
    params.push(("sids".to_owned(), array_value(items)));
    let ghost views = params@.map_values(|entry: (String, serde_json::Value)| (entry.0@, value_view(entry.1)));
    proof {
        assert(views =~= seq![("sids"@, JsonView::Array(numbers))]);
        lemma_two_entries(("sids"@, JsonView::Array(numbers)), ("sids"@, JsonView::Null));
    }
    let params: serde_json::Value = object_value(params);
    proof {
        let view = value_view(params);
        assert forall|i: int| 0 <= i < numbers.len() implies plain(#[trigger] numbers[i], 97) by {}
        assert(plain(JsonView::Array(numbers), 98));
        assert forall|name: Seq<char>| view->Object_0.dom().contains(name) implies plain(#[trigger] view->Object_0[name], 98) by {
            assert(name == "sids"@);
        }
    }
    command(id, "unsubscribe", params)
}

/// The channels that a session follows, in the order in which it subscribes to them.
pub open spec fn session_channels() -> Seq<Seq<char>> {
    seq!["orderbook_delta"@, "fill"@, "user_orders"@, "trade"@, "ticker"@]
}

/// The connection to the feed for one market.
pub struct WsManager {
    pub ws_url: String,
    pub creds: Arc<Credentials>,
    pub ticker: String,
}

impl WsManager {
    pub fn new(ws_url: String, creds: Arc<Credentials>, ticker: String) -> (r: Self)
        ensures
            r == (WsManager { ws_url, creds, ticker }),
    {
        Self { ws_url, creds, ticker }
    }

    /// The commands to send once the connection is there: one per channel, numbered from 1.
    pub fn subscriptions(&self) -> (r: Vec<String>)
        ensures
            r@.len() == session_channels().len(),
            forall|i: int|
                0 <= i < r@.len() ==> {
                    let view = subscribe_view((i + 1) as u64, seq![session_channels()[i]], self.ticker@);
                    (#[trigger] r@[i])@ == json_text(view) && json_value(r@[i]@) == Some(view)
                },
    {
        let channels: [&str; 5] = ["orderbook_delta", "fill", "user_orders", "trade", "ticker"];
        let mut commands: Vec<String> = Vec::new();
        let mut i: usize = 0;
        while i < 5
            invariant
                i <= 5,
                commands@.len() == i,
                channels@.len() == 5,
                names_view(channels@) == session_channels(),
                forall|k: int|
                    0 <= k < i ==> {
                        let view = subscribe_view((k + 1) as u64, seq![session_channels()[k]], self.ticker@);
                        (#[trigger] commands@[k])@ == json_text(view) && json_value(commands@[k]@) == Some(view)
                    },
            decreases 5 - i,
        {
            let one: [&str; 1] = [channels[i]];
            proof {
                assert(names_view(channels@)[i as int] == channels@[i as int]@);
                assert(names_view(one@) =~= seq![session_channels()[i as int]]);
            }
            commands.push(subscribe_cmd((i + 1) as u64, &one, self.ticker.as_str()));
            i = i + 1;
        }
        commands
    }
}

/// What the connection to the feed brings.
#[derive(Debug)]
pub enum Frame {
    Text(String),
    /// The other end closes the connection.
    Close,
    /// Nothing more comes.
    End,
    /// The connection fails, for this reason.
    Broken(String),
    /// Anything else, such as a ping.
    Other,
}

/// What to do with a frame.
#[derive(Debug)]
pub enum FrameStep {
    Forward(WsMessage),
    Ignore,
    /// The connection is over, by a failure where one is given.
    Stop { failure: Option<String> },
}

/// The text that an optional string holds.
pub open spec fn optional_view(text: Option<String>) -> Option<Seq<char>> {
    match text {
        Some(s) => Some(s@),
        None => None,
    }
}

/// How a frame ends the connection, where it does: by a failure, or cleanly.
pub open spec fn ending(frame: Frame) -> Option<Option<Seq<char>>> {
    match frame {
        Frame::Close => Some(None),
        Frame::End => Some(None),
        Frame::Broken(reason) => Some(Some(reason@)),
        Frame::Text(_) => None,
        Frame::Other => None,
    }
}

/// Texts are passed on as the messages that they carry; a close, the end of the stream and a
/// failure end the connection; all else is ignored.
pub fn on_frame<C: Fn(&str) -> Option<i64>, U: Fn(&str) -> Option<i64>>(
    frame: &Frame,
    cents: &C,
    units: &U,
) -> (r: FrameStep)
    requires
        reads_all(*cents),
        reads_all(*units),
    ensures
        match *frame {
            Frame::Text(text) => r matches FrameStep::Forward(m) && carried_by(m@, text@, *cents, *units),
            Frame::Other => r is Ignore,
            _ => r matches FrameStep::Stop { failure } && ending(*frame) == Some(optional_view(failure)),
        },
{
    match frame {
        Frame::Text(text) => FrameStep::Forward(parse_ws_message(text.as_str(), cents, units)),
        Frame::Close => FrameStep::Stop { failure: None },
        Frame::End => FrameStep::Stop { failure: None },
        Frame::Broken(reason) => FrameStep::Stop { failure: Some(reason.clone()) },
        Frame::Other => FrameStep::Ignore,
    }
}

/// The notice that a connection has ended, by a failure where one is given.
pub open spec fn disconnect_notice(failure: Option<Seq<char>>) -> MessageView {
    MessageView::Error {
        code: 0,
        message: "WS disconnect: "@ + match failure {
            Some(reason) => reason,
            None => "connection closed"@,
        },
    }
}

/// What follows the end of a connection: the message to pass on, and the time to wait before
/// connecting again.
#[derive(Debug)]
pub struct Reconnect {
    pub notice: WsMessage,
    pub wait_ms: u64,
}

/// Every end of a connection is reported. After a clean one connect again at once, after a failure
/// wait a second.
pub fn after_connection(failure: Option<&str>) -> (r: Reconnect)
    ensures
        r.notice@ == disconnect_notice(
            match failure {
                Some(reason) => Some(reason@),
                None => None,
            },
        ),
        r.wait_ms == (if failure is Some {
            1000
        } else {
            0int
        }),
{
    match failure {
        Some(reason) => Reconnect {
            notice: WsMessage::Error { code: 0, message: "WS disconnect: ".to_owned().concat(reason) },
            wait_ms: 1000,
        },
        None => Reconnect {
            notice: WsMessage::Error { code: 0, message: "WS disconnect: ".to_owned().concat("connection closed") },
            wait_ms: 0,
        },
    }
}

/// What `url::Url::parse` makes of an address: its host, where it has one, as `url::Url::host_str`
/// gives it; or the reason, as `url::ParseError` writes it, for which it is refused.
pub uninterp spec fn url_host(address: Seq<char>) -> Result<Option<Seq<char>>, Seq<char>>;

/// A host, or the reason for which an address is refused, as plain sequences of characters.
pub open spec fn host_view(host: Result<Option<String>, String>) -> Result<Option<Seq<char>>, Seq<char>> {
    match host {
        Ok(name) => Ok(optional_view(name)),
        Err(reason) => Err(reason@),
    }
}

/// `url::Url::parse` with `url::Url::host_str` of what it gives: the host of an address, or the
/// reason for which the address is refused. It depends on the address alone.
#[verifier::external_body]
fn parse_host(address: &str) -> (r: Result<Option<String>, String>)
    ensures
        host_view(r) == url_host(address@),
{
    match url::Url::parse(address) {
        Ok(url) => Ok(url.host_str().map(|host| host.to_string())),
        Err(e) => Err(e.to_string()),
    }
}

/// The headers of the request that opens the connection, in order.
pub open spec fn handshake_view(
    host: Option<Seq<char>>,
    key_id: Seq<char>,
    signature: Seq<char>,
    timestamp: Seq<char>,
    nonce: Seq<char>,
) -> Seq<(Seq<char>, Seq<char>)> {
    seq![
        ("KALSHI-ACCESS-KEY"@, key_id),
        ("KALSHI-ACCESS-SIGNATURE"@, signature),
        ("KALSHI-ACCESS-TIMESTAMP"@, timestamp),
        (
            "Host"@,
            match host {
                Some(name) => name,
                None => Seq::empty(),
            },
        ),
        ("Connection"@, "Upgrade"@),
        ("Upgrade"@, "websocket"@),
        ("Sec-WebSocket-Version"@, "13"@),
        ("Sec-WebSocket-Key"@, nonce),
    ]
}

/// The headers of the request that opens the connection to `host`: the signature of the request
/// with the key and the time that it is made of, and those that ask for a WebSocket.
pub fn handshake_headers(
    host: Option<&str>,
    key_id: &str,
    signature: &str,
    timestamp: &str,
    nonce: &str,
) -> (r: Vec<(String, String)>)
    ensures
        settings_view(r@) == handshake_view(
            match host {
                Some(name) => Some(name@),
                None => None,
            },
            key_id@,
            signature@,
            timestamp@,
            nonce@,
        ),
{
    let host: String = match host {
        Some(name) => name.to_owned(),
        None => String::new(),
    };
    let mut headers: Vec<(String, String)> = Vec::new();
    headers.push(("KALSHI-ACCESS-KEY".to_owned(), key_id.to_owned()));
    headers.push(("KALSHI-ACCESS-SIGNATURE".to_owned(), signature.to_owned()));
    headers.push(("KALSHI-ACCESS-TIMESTAMP".to_owned(), timestamp.to_owned()));
    headers.push(("Host".to_owned(), host));
    headers.push(("Connection".to_owned(), "Upgrade".to_owned()));
    headers.push(("Upgrade".to_owned(), "websocket".to_owned()));
    headers.push(("Sec-WebSocket-Version".to_owned(), "13".to_owned()));
    headers.push(("Sec-WebSocket-Key".to_owned(), nonce.to_owned()));
    headers
}

impl WsManager {
    /// The host of the feed's address, where it has one, or the reason for which the address is
    /// refused.
    pub fn host(&self) -> (r: Result<Option<String>, String>)
        ensures
            host_view(r) == url_host(self.ws_url@),
    {
        parse_host(self.ws_url.as_str())
    }

    /// The headers of the request that opens the connection, or the reason for which there can be
    /// no connection to the address.
    pub fn handshake(&self, key_id: &str, signature: &str, timestamp: &str, nonce: &str) -> (r: Result<
        Vec<(String, String)>,
        String,
    >)
        ensures
            match url_host(self.ws_url@) {
                Ok(host) => r matches Ok(headers) && settings_view(headers@) == handshake_view(
                    host,
                    key_id@,
                    signature@,
                    timestamp@,
                    nonce@,
                ),
                Err(reason) => r matches Err(e) && e@ == reason,
            },
    {
        match self.host() {
            Ok(Some(name)) => Ok(handshake_headers(Some(name.as_str()), key_id, signature, timestamp, nonce)),
            Ok(None) => Ok(handshake_headers(None, key_id, signature, timestamp, nonce)),
            Err(reason) => Err(reason),
        }
    }
}

} // verus!
