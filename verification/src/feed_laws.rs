//! What holds of the messages that are read and of the commands that are written.

use crate::json::{items_of, member, object_of, signed_of, text_of, truth_of, unsigned_of, JsonView};
use crate::market_data::Side;
use crate::ws::{
    decimal_level, disconnect_notice, ending, handshake_view, levels_of, message_of, session_channels, snapshot_levels,
    subscribe_view, unsubscribe_view, whole_level, Frame, MessageView,
};
use vstd::prelude::*;

verus! {

/// Whether `value` is the amount in `msg`: what the decimal text under `decimal` reads as, where there
/// is such a text and it can be read; else the whole number under `whole`, where there is one; else 0.
pub open spec fn is_amount(
    value: i64,
    msg: JsonView,
    decimal: Seq<char>,
    whole: Seq<char>,
    read: spec_fn(Seq<char>) -> Option<i64>,
) -> bool {
    let by_decimal = match text_of(member(msg, decimal)) {
        Some(text) => read(text),
        None => None,
    };
    &&& by_decimal matches Some(n) ==> value == n
    &&& by_decimal is None ==> match signed_of(member(msg, whole)) {
        Some(n) => value == n,
        None => value == 0,
    }
}

/// Whether `text` is what `msg` says under `name`, or `default` where it says no text.
pub open spec fn is_text(text: Seq<char>, msg: JsonView, name: Seq<char>, default: Seq<char>) -> bool {
    match text_of(member(msg, name)) {
        Some(given) => text == given,
        None => text == default,
    }
}

/// Whether `n` is the number that `msg` says under `name`, or 0 where it says none.
pub open spec fn is_natural(n: u64, msg: JsonView, name: Seq<char>) -> bool {
    match unsigned_of(member(msg, name)) {
        Some(given) => n == given,
        None => n == 0,
    }
}

/// Whether `v` says that it is of this kind.
pub open spec fn of_kind(v: JsonView, kind: Seq<char>) -> bool {
    text_of(member(v, "type"@)) == Some(kind)
}

proof fn lemma_kinds_differ()
    ensures
        ""@ == Seq::<char>::empty(),
        "yes"@ != ""@,
        "orderbook_snapshot"@ != "orderbook_delta"@,
        "fill"@ != "orderbook_snapshot"@ && "fill"@ != "orderbook_delta"@,
        "user_order"@ != "orderbook_snapshot"@ && "user_order"@ != "orderbook_delta"@ && "user_order"@ != "fill"@,
        "ticker"@ != "orderbook_snapshot"@ && "ticker"@ != "orderbook_delta"@ && "ticker"@ != "fill"@ && "ticker"@
            != "user_order"@,
        "trade"@ != "orderbook_snapshot"@ && "trade"@ != "orderbook_delta"@ && "trade"@ != "fill"@ && "trade"@
            != "user_order"@ && "trade"@ != "ticker"@,
        "subscribed"@ != "orderbook_snapshot"@ && "subscribed"@ != "orderbook_delta"@ && "subscribed"@ != "fill"@
            && "subscribed"@ != "user_order"@ && "subscribed"@ != "ticker"@ && "subscribed"@ != "trade"@,
        "error"@ != "orderbook_snapshot"@ && "error"@ != "orderbook_delta"@ && "error"@ != "fill"@ && "error"@
            != "user_order"@ && "error"@ != "ticker"@ && "error"@ != "trade"@ && "error"@ != "subscribed"@,
{
    reveal_strlit("");
    reveal_strlit("yes");
    assert(""@ =~= Seq::<char>::empty());
    assert("yes"@.len() == 3);
    reveal_strlit("orderbook_snapshot");
    reveal_strlit("orderbook_delta");
    reveal_strlit("fill");
    reveal_strlit("user_order");
    reveal_strlit("ticker");
    reveal_strlit("trade");
    reveal_strlit("subscribed");
    reveal_strlit("error");
    assert("orderbook_snapshot"@.len() == 18 && "orderbook_delta"@.len() == 15 && "fill"@.len() == 4);
    assert("user_order"@.len() == 10 && "user_order"@[0] == 'u');
    assert("subscribed"@.len() == 10 && "subscribed"@[0] == 's');
    assert("ticker"@.len() == 6);
    assert("trade"@.len() == 5 && "trade"@[0] == 't');
    assert("error"@.len() == 5 && "error"@[0] == 'e');
}

/// An update: its price by the reader of prices, its change by the reader of quantities. The side is
/// YES where it says so, else NO.
pub proof fn law_delta_is_read(
    v: JsonView,
    text: Seq<char>,
    cents: spec_fn(Seq<char>) -> Option<i64>,
    units: spec_fn(Seq<char>) -> Option<i64>,
)
    requires
        of_kind(v, "orderbook_delta"@),
    ensures
        ({
            let msg = member(v, "msg"@);
            message_of(v, text, cents, units) matches MessageView::OrderbookDelta {
                market_ticker,
                side,
                price,
                delta,
                seq,
            } && {
                &&& is_text(market_ticker, msg, "market_ticker"@, ""@)
                &&& (side == Side::Yes) == (text_of(member(msg, "side"@)) == Some("yes"@))
                &&& is_amount(price, msg, "price_dollars"@, "price"@, cents)
                &&& is_amount(delta, msg, "delta_fp"@, "delta"@, units)
                &&& is_natural(seq, v, "seq"@)
            }
        }),
{
    lemma_kinds_differ();
}

/// A fill: its price by the reader of prices, its count by the reader of quantities.
pub proof fn law_fill_is_read(
    v: JsonView,
    text: Seq<char>,
    cents: spec_fn(Seq<char>) -> Option<i64>,
    units: spec_fn(Seq<char>) -> Option<i64>,
)
    requires
        of_kind(v, "fill"@),
    ensures
        ({
            let msg = member(v, "msg"@);
            message_of(v, text, cents, units) matches MessageView::Fill { 
                trade_id,
                order_id,
                market_ticker,
                side,
                yes_price,
                count,
                action,
                is_taker,
                post_position,
            } && {
                &&& is_text(trade_id, msg, "trade_id"@, ""@)
                &&& is_text(order_id, msg, "order_id"@, ""@)
                &&& is_text(market_ticker, msg, "market_ticker"@, ""@)
                &&& is_text(side, msg, "side"@, ""@)
                &&& is_amount(yes_price, msg, "yes_price_dollars"@, "yes_price"@, cents)
                &&& is_amount(count, msg, "count_fp"@, "count"@, units)
                &&& is_text(action, msg, "action"@, ""@)
                &&& is_taker == (truth_of(member(msg, "is_taker"@)) == Some(true))
                &&& match signed_of(member(msg, "post_position"@)) {
                    Some(n) => post_position == n,
                    None => post_position == 0,
                }
            }
        }),
{
    lemma_kinds_differ();
}

/// A report on an order; a count that is missing is written as none.
pub proof fn law_order_report_is_read(
    v: JsonView,
    text: Seq<char>,
    cents: spec_fn(Seq<char>) -> Option<i64>,
    units: spec_fn(Seq<char>) -> Option<i64>,
)
    requires
        of_kind(v, "user_order"@),
    ensures
        ({
            let msg = member(v, "msg"@);
            message_of(v, text, cents, units) matches MessageView::UserOrder { order_id, ticker, status, side, remaining_count_fp, fill_count_fp } && {
                &&& is_text(order_id, msg, "order_id"@, ""@)
                &&& is_text(ticker, msg, "ticker"@, ""@)
                &&& is_text(status, msg, "status"@, ""@)
                &&& is_text(side, msg, "side"@, ""@)
                &&& is_text(remaining_count_fp, msg, "remaining_count_fp"@, "0.00"@)
                &&& is_text(fill_count_fp, msg, "fill_count_fp"@, "0.00"@)
            }
        }),
{
    lemma_kinds_differ();
}

/// The prices of a market by the reader of prices, its volume by the reader of quantities.
pub proof fn law_ticker_is_read(
    v: JsonView,
    text: Seq<char>,
    cents: spec_fn(Seq<char>) -> Option<i64>,
    units: spec_fn(Seq<char>) -> Option<i64>,
)
    requires
        of_kind(v, "ticker"@),
    ensures
        ({
            let msg = member(v, "msg"@);
            message_of(v, text, cents, units) matches MessageView::Ticker { market_ticker, yes_bid, yes_ask, price, volume } && {
                &&& is_text(market_ticker, msg, "market_ticker"@, ""@)
                &&& is_amount(yes_bid, msg, "yes_bid_dollars"@, "yes_bid"@, cents)
                &&& is_amount(yes_ask, msg, "yes_ask_dollars"@, "yes_ask"@, cents)
                &&& is_amount(price, msg, "price_dollars"@, "price"@, cents)
                &&& is_amount(volume, msg, "volume_fp"@, "volume"@, units)
            }
        }),
{
    lemma_kinds_differ();
}

/// A trade: its price by the reader of prices, its count by the reader of quantities.
pub proof fn law_trade_is_read(
    v: JsonView,
    text: Seq<char>,
    cents: spec_fn(Seq<char>) -> Option<i64>,
    units: spec_fn(Seq<char>) -> Option<i64>,
)
    requires
        of_kind(v, "trade"@),
    ensures
        ({
            let msg = member(v, "msg"@);
            message_of(v, text, cents, units) matches MessageView::Trade { market_ticker, yes_price, count, taker_side } && {
                &&& is_text(market_ticker, msg, "market_ticker"@, ""@)
                &&& is_amount(yes_price, msg, "yes_price_dollars"@, "yes_price"@, cents)
                &&& is_amount(count, msg, "count_fp"@, "count"@, units)
                &&& is_text(taker_side, msg, "taker_side"@, ""@)
            }
        }),
{
    lemma_kinds_differ();
}

/// A confirmed subscription.
pub proof fn law_subscription_is_read(
    v: JsonView,
    text: Seq<char>,
    cents: spec_fn(Seq<char>) -> Option<i64>,
    units: spec_fn(Seq<char>) -> Option<i64>,
)
    requires
        of_kind(v, "subscribed"@),
    ensures
        ({
            let msg = member(v, "msg"@);
            message_of(v, text, cents, units) matches MessageView::Subscribed { channel, sid } && {
                &&& is_text(channel, msg, "channel"@, ""@)
                &&& is_natural(sid, msg, "sid"@)
            }
        }),
{
    lemma_kinds_differ();
}

/// An error; its words stand where other messages have their contents.
pub proof fn law_error_is_read(
    v: JsonView,
    text: Seq<char>,
    cents: spec_fn(Seq<char>) -> Option<i64>,
    units: spec_fn(Seq<char>) -> Option<i64>,
)
    requires
        of_kind(v, "error"@),
    ensures
        ({
            let msg = member(v, "msg"@);
            message_of(v, text, cents, units) matches MessageView::Error { code, message } && {
                &&& is_natural(code, v, "code"@)
                &&& match text_of(msg) {
                    Some(words) => message == words,
                    None => message == Seq::<char>::empty(),
                }
            }
        }),
{
    lemma_kinds_differ();
}

/// Whether `levels` are the levels of one side of a snapshot: those that the list `decimal` makes, a
/// price by the reader of prices and a quantity by the reader of quantities; or, where there is no such
/// list, those that the list `whole` makes; or none.
pub open spec fn are_levels(
    levels: Seq<(i64, i64)>,
    msg: JsonView,
    decimal: Seq<char>,
    whole: Seq<char>,
    cents: spec_fn(Seq<char>) -> Option<i64>,
    units: spec_fn(Seq<char>) -> Option<i64>,
) -> bool {
    match (items_of(member(msg, decimal)), items_of(member(msg, whole))) {
        (Some(items), _) => levels == listed(items, |item: JsonView| decimal_pair(item, cents, units)),
        (None, Some(items)) => levels == listed(items, |item: JsonView| whole_pair(item)),
        (None, None) => levels.len() == 0,
    }
}

/// The level that an item makes: a list that begins with two texts that can be read.
pub open spec fn decimal_pair(
    item: JsonView,
    cents: spec_fn(Seq<char>) -> Option<i64>,
    units: spec_fn(Seq<char>) -> Option<i64>,
) -> Option<(i64, i64)> {
    if item is Array && item->Array_0.len() >= 2 && item->Array_0[0] is Text && item->Array_0[1] is Text {
        match (cents(item->Array_0[0]->Text_0), units(item->Array_0[1]->Text_0)) {
            (Some(price), Some(quantity)) => Some((price, quantity)),
            _ => None,
        }
    } else {
        None
    }
}

/// The level that an item makes: a list that begins with two whole numbers.
pub open spec fn whole_pair(item: JsonView) -> Option<(i64, i64)> {
    if item is Array && item->Array_0.len() >= 2 && item->Array_0[0] is Number && item->Array_0[1] is Number {
        match (item->Array_0[0]->signed, item->Array_0[1]->signed) {
            (Some(price), Some(quantity)) => Some((price, quantity)),
            _ => None,
        }
    } else {
        None
    }
}

/// What those of `items` make that make something, from the first on.
pub open spec fn listed(items: Seq<JsonView>, pair: spec_fn(JsonView) -> Option<(i64, i64)>) -> Seq<(i64, i64)>
    decreases items.len(),
{
    if items.len() == 0 {
        Seq::empty()
    } else {
        (match pair(items[0]) {
            Some(level) => seq![level],
            None => Seq::empty(),
        }) + listed(items.skip(1), pair)
    }
}

proof fn lemma_listed(
    items: Seq<JsonView>,
    pair: spec_fn(JsonView) -> Option<(i64, i64)>,
    level: spec_fn(JsonView) -> Option<(i64, i64)>,
)
    requires
        forall|item: JsonView| #[trigger] pair(item) == level(item),
    ensures
        levels_of(items, level) == listed(items, pair),
    decreases items.len(),
{
    if items.len() > 0 {
        lemma_levels_from_the_front(items, level);
        lemma_listed(items.skip(1), pair, level);
    }
}

proof fn lemma_levels_from_the_front(items: Seq<JsonView>, level: spec_fn(JsonView) -> Option<(i64, i64)>)
    requires
        items.len() > 0,
    ensures
        levels_of(items, level) == (match level(items[0]) {
            Some(l) => seq![l],
            None => Seq::empty(),
        }) + levels_of(items.skip(1), level),
    decreases items.len(),
{
    let rest = items.skip(1);
    if items.len() == 1 {
        assert(items.drop_last() =~= Seq::empty());
        assert(rest =~= Seq::empty());
        assert(levels_of(Seq::empty(), level) =~= Seq::empty());
        assert(levels_of(items, level) =~= (match level(items[0]) {
            Some(l) => seq![l],
            None => Seq::empty(),
        }) + levels_of(rest, level));
    } else {
        let front = items.drop_last();
        lemma_levels_from_the_front(front, level);
        assert(front.skip(1) =~= rest.drop_last());
        assert(rest.last() == items.last());
        assert(front[0] == items[0]);
        assert(levels_of(items, level) =~= (match level(items[0]) {
            Some(l) => seq![l],
            None => Seq::empty(),
        }) + levels_of(rest, level));
    }
}

proof fn lemma_snapshot_levels(
    msg: JsonView,
    decimal: Seq<char>,
    whole: Seq<char>,
    cents: spec_fn(Seq<char>) -> Option<i64>,
    units: spec_fn(Seq<char>) -> Option<i64>,
)
    ensures
        are_levels(snapshot_levels(msg, decimal, whole, cents, units), msg, decimal, whole, cents, units),
{
    if let Some(items) = items_of(member(msg, decimal)) {
        let pair = |item: JsonView| decimal_pair(item, cents, units);
        let level = |item: JsonView| decimal_level(item, cents, units);
        assert forall|item: JsonView| #[trigger] pair(item) == level(item) by {}
        lemma_listed(items, pair, level);
    } else if let Some(items) = items_of(member(msg, whole)) {
        let pair = |item: JsonView| whole_pair(item);
        let level = |item: JsonView| whole_level(item);
        assert forall|item: JsonView| #[trigger] pair(item) == level(item) by {}
        lemma_listed(items, pair, level);
    }
}

/// A snapshot: the levels of its two sides, in the order in which they are listed.
pub proof fn law_snapshot_is_read(
    v: JsonView,
    text: Seq<char>,
    cents: spec_fn(Seq<char>) -> Option<i64>,
    units: spec_fn(Seq<char>) -> Option<i64>,
)
    requires
        of_kind(v, "orderbook_snapshot"@),
    ensures
        ({
            let msg = member(v, "msg"@);
            message_of(v, text, cents, units) matches MessageView::OrderbookSnapshot {
                market_ticker,
                yes_levels,
                no_levels,
                seq,
            } && {
                &&& is_text(market_ticker, msg, "market_ticker"@, ""@)
                &&& are_levels(yes_levels, msg, "yes_dollars_fp"@, "yes"@, cents, units)
                &&& are_levels(no_levels, msg, "no_dollars_fp"@, "no"@, cents, units)
                &&& is_natural(seq, v, "seq"@)
            }
        }),
{
    let msg = member(v, "msg"@);
    lemma_snapshot_levels(msg, "yes_dollars_fp"@, "yes"@, cents, units);
    lemma_snapshot_levels(msg, "no_dollars_fp"@, "no"@, cents, units);
}

/// A value of none of these kinds is kept as the text that it came in.
pub proof fn law_unknown_kind_is_kept(
    v: JsonView,
    text: Seq<char>,
    cents: spec_fn(Seq<char>) -> Option<i64>,
    units: spec_fn(Seq<char>) -> Option<i64>,
)
    requires
        !of_kind(v, "orderbook_snapshot"@),
        !of_kind(v, "orderbook_delta"@),
        !of_kind(v, "fill"@),
        !of_kind(v, "user_order"@),
        !of_kind(v, "ticker"@),
        !of_kind(v, "trade"@),
        !of_kind(v, "subscribed"@),
        !of_kind(v, "error"@),
    ensures
        message_of(v, text, cents, units) == MessageView::Unknown(text),
{
    reveal_strlit("");
    lemma_kinds_differ();
    assert(""@.len() == 0);
    reveal_strlit("orderbook_snapshot");
    reveal_strlit("orderbook_delta");
    reveal_strlit("fill");
    reveal_strlit("user_order");
    reveal_strlit("ticker");
    reveal_strlit("trade");
    reveal_strlit("subscribed");
    reveal_strlit("error");
    assert("orderbook_snapshot"@.len() > 0 && "orderbook_delta"@.len() > 0 && "fill"@.len() > 0);
    assert("user_order"@.len() > 0 && "ticker"@.len() > 0 && "trade"@.len() > 0);
    assert("subscribed"@.len() > 0 && "error"@.len() > 0);
}

/// Prices depend on the reader of prices only and quantities on the reader of quantities only: two
/// readings that differ in one reader agree in all that the other reads.
pub proof fn law_each_reader_reads_its_own(
    v: JsonView,
    text: Seq<char>,
    cents: spec_fn(Seq<char>) -> Option<i64>,
    units: spec_fn(Seq<char>) -> Option<i64>,
    other_cents: spec_fn(Seq<char>) -> Option<i64>,
    other_units: spec_fn(Seq<char>) -> Option<i64>,
)
    ensures
        prices(message_of(v, text, cents, units)) == prices(message_of(v, text, cents, other_units)),
        quantities(message_of(v, text, cents, units)) == quantities(message_of(v, text, other_cents, units)),
{
}

/// The single prices that a message tells.
pub open spec fn prices(m: MessageView) -> Seq<i64> {
    match m {
        MessageView::OrderbookDelta { price, .. } => seq![price],
        MessageView::Fill { yes_price, .. } => seq![yes_price],
        MessageView::Ticker { yes_bid, yes_ask, price, .. } => seq![yes_bid, yes_ask, price],
        MessageView::Trade { yes_price, .. } => seq![yes_price],
        _ => Seq::empty(),
    }
}

/// The single quantities that a message tells.
pub open spec fn quantities(m: MessageView) -> Seq<i64> {
    match m {
        MessageView::OrderbookDelta { delta, .. } => seq![delta],
        MessageView::Fill { count, .. } => seq![count],
        MessageView::Ticker { volume, .. } => seq![volume],
        MessageView::Trade { count, .. } => seq![count],
        _ => Seq::empty(),
    }
}

/// What a JSON value says: an object says what it has under a name, nothing under any other; a text is
/// a text, a number is a number, a list is a list, and none of them is another.
pub proof fn law_json_values(value: JsonView, name: Seq<char>)
    ensures
        match value {
            JsonView::Object(entries) => if entries.dom().contains(name) {
                member(value, name) == entries[name]
            } else {
                member(value, name) is Null
            },
            _ => member(value, name) is Null,
        },
        text_of(value) == (if value is Text {
            Some(value->Text_0)
        } else {
            None
        }),
        signed_of(value) == (if value is Number {
            value->signed
        } else {
            None
        }),
        unsigned_of(value) == (if value is Number {
            value->unsigned
        } else {
            None
        }),
        truth_of(value) == (if value is Bool {
            Some(value->Bool_0)
        } else {
            None
        }),
        items_of(value) == (if value is Array {
            Some(value->Array_0)
        } else {
            None
        }),
{
}

/// Entries make an object one after another; a later entry takes the place of an earlier one of its
/// name and leaves all others as they are.
pub proof fn law_later_entry_counts(entries: Seq<(Seq<char>, JsonView)>, name: Seq<char>, value: JsonView, other: Seq<char>)
    ensures
        ({
            let before = JsonView::Object(object_of(entries));
            let after = JsonView::Object(object_of(entries.push((name, value))));
            &&& member(after, name) == value
            &&& other != name ==> member(after, other) == member(before, other)
            &&& member(JsonView::Object(object_of(Seq::empty())), name) is Null
        }),
{
    assert(entries.push((name, value)).drop_last() =~= entries);
}

/// The command to subscribe names its number, its channels in order and its market, and no more.
pub proof fn law_subscription_says(id: u64, channels: Seq<Seq<char>>, market_ticker: Seq<char>)
    ensures
        ({
            let command = subscribe_view(id, channels, market_ticker);
            let params = member(command, "params"@);
            &&& unsigned_of(member(command, "id"@)) == Some(id)
            &&& text_of(member(command, "cmd"@)) == Some("subscribe"@)
            &&& text_of(member(params, "market_ticker"@)) == Some(market_ticker)
            &&& items_of(member(params, "channels"@)) matches Some(items) && items.len() == channels.len() && (forall|i: int|
                0 <= i < items.len() ==> text_of(#[trigger] items[i]) == Some(channels[i]))
            &&& forall|name: Seq<char>|
                !(#[trigger] member(command, name) is Null) ==> name == "id"@ || name == "cmd"@ || name == "params"@
            &&& forall|name: Seq<char>|
                !(#[trigger] member(params, name) is Null) ==> name == "channels"@ || name == "market_ticker"@
        }),
{
    lemma_command_names();
}

/// The command to end subscriptions names its number and theirs, in order, and no more.
pub proof fn law_unsubscription_says(id: u64, sids: Seq<u64>)
    ensures
        ({
            let command = unsubscribe_view(id, sids);
            let params = member(command, "params"@);
            &&& unsigned_of(member(command, "id"@)) == Some(id)
            &&& text_of(member(command, "cmd"@)) == Some("unsubscribe"@)
            &&& items_of(member(params, "sids"@)) matches Some(items) && items.len() == sids.len() && (forall|i: int|
                0 <= i < items.len() ==> unsigned_of(#[trigger] items[i]) == Some(sids[i]))
            &&& forall|name: Seq<char>|
                !(#[trigger] member(command, name) is Null) ==> name == "id"@ || name == "cmd"@ || name == "params"@
            &&& forall|name: Seq<char>| !(#[trigger] member(params, name) is Null) ==> name == "sids"@
        }),
{
    lemma_command_names();
}

proof fn lemma_command_names()
    ensures
        "id"@ != "cmd"@ && "id"@ != "params"@ && "cmd"@ != "params"@,
        "channels"@ != "market_ticker"@,
{
    reveal_strlit("id");
    reveal_strlit("cmd");
    reveal_strlit("params");
    reveal_strlit("channels");
    reveal_strlit("market_ticker");
    assert("id"@.len() == 2 && "cmd"@.len() == 3 && "params"@.len() == 6);
    assert("channels"@.len() == 8 && "market_ticker"@.len() == 13);
}

/// A session follows the book, the fills and the reports on its orders, and the trades and prices of
/// its market, each by a subscription of its own.
pub proof fn law_session_follows()
    ensures
        session_channels().no_duplicates(),
        session_channels().len() == 5,
        session_channels().contains("orderbook_delta"@),
        session_channels().contains("fill"@),
        session_channels().contains("user_orders"@),
        session_channels().contains("trade"@),
        session_channels().contains("ticker"@),
{
    reveal_strlit("orderbook_delta");
    reveal_strlit("fill");
    reveal_strlit("user_orders");
    reveal_strlit("trade");
    reveal_strlit("ticker");
    let all = session_channels();
    assert(all[0].len() == 15 && all[1].len() == 4 && all[2].len() == 11 && all[3].len() == 5 && all[4].len() == 6);
    assert(all[0] == "orderbook_delta"@ && all[1] == "fill"@ && all[2] == "user_orders"@ && all[3] == "trade"@ && all[4]
        == "ticker"@);
}

/// A close and the end of the stream end the connection without a failure, a broken connection ends
/// it with its reason, and nothing else ends it.
pub proof fn law_what_ends_a_connection(frame: Frame)
    ensures
        ending(frame) is None <==> frame is Text || frame is Other,
        frame is Close || frame is End ==> ending(frame) == Some(None::<Seq<char>>),
        frame matches Frame::Broken(reason) ==> ending(frame) == Some(Some(reason@)),
{
}

/// The notice of an end begins with the words of a disconnect, and ends with the reason of a failure.
pub proof fn law_notice_gives_the_reason(reason: Seq<char>)
    ensures
        disconnect_notice(Some(reason)) matches MessageView::Error { code, message } && code == 0 && message.len()
            == "WS disconnect: "@.len() + reason.len() && message.take("WS disconnect: "@.len() as int)
            == "WS disconnect: "@ && message.skip("WS disconnect: "@.len() as int) == reason,
        disconnect_notice(None) matches MessageView::Error { code, message } && code == 0 && message.take(
            "WS disconnect: "@.len() as int,
        ) == "WS disconnect: "@,
{
    let words = "WS disconnect: "@;
    assert((words + reason).take(words.len() as int) =~= words);
    assert((words + reason).skip(words.len() as int) =~= reason);
    assert((words + "connection closed"@).take(words.len() as int) =~= words);
}

/// The request that opens the connection: the host of the address, or none; the key, the signature and
/// the time of signing, each under its own header; the request for a WebSocket with its nonce.
pub proof fn law_handshake_says(
    host: Option<Seq<char>>,
    key_id: Seq<char>,
    signature: Seq<char>,
    timestamp: Seq<char>,
    nonce: Seq<char>,
)
    ensures
        ({
            let headers = handshake_view(host, key_id, signature, timestamp, nonce);
            &&& headers.len() == 8
            &&& headers.contains(("KALSHI-ACCESS-KEY"@, key_id))
            &&& headers.contains(("KALSHI-ACCESS-SIGNATURE"@, signature))
            &&& headers.contains(("KALSHI-ACCESS-TIMESTAMP"@, timestamp))
            &&& host matches Some(name) ==> headers.contains(("Host"@, name))
            &&& host is None ==> headers.contains(("Host"@, Seq::empty()))
            &&& headers.contains(("Connection"@, "Upgrade"@))
            &&& headers.contains(("Upgrade"@, "websocket"@))
            &&& headers.contains(("Sec-WebSocket-Version"@, "13"@))
            &&& headers.contains(("Sec-WebSocket-Key"@, nonce))
        }),
{
    let headers = handshake_view(host, key_id, signature, timestamp, nonce);
    assert(headers[0] == ("KALSHI-ACCESS-KEY"@, key_id));
    assert(headers[1] == ("KALSHI-ACCESS-SIGNATURE"@, signature));
    assert(headers[2] == ("KALSHI-ACCESS-TIMESTAMP"@, timestamp));
    assert(headers[3].0 == "Host"@);
    assert(headers[4] == ("Connection"@, "Upgrade"@));
    assert(headers[5] == ("Upgrade"@, "websocket"@));
    assert(headers[6] == ("Sec-WebSocket-Version"@, "13"@));
    assert(headers[7] == ("Sec-WebSocket-Key"@, nonce));
    assert(headers.contains(headers[3]));
}

} // verus!
