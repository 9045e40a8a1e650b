//! What holds of the program's orders, of the actions on them and of the requests that these make.

use crate::execution::{
    collected, distinct_ids, first_working, is_working_buy, lemma_place_of, place_of, removed, tracks, with_fill, with_order, with_status,
    working_ids, OrderModel, OrderStatus,
};
use crate::orders::{
    cancelling, dispatched, fired_order, request_of, settled, with_amends_marked, DispatchView, ReplyModel,
    RequestModel,
};
use crate::quote_laws::{buys, law_own_order_is_the_first};
use crate::session_laws::{law_accepted_ask_is_reached, law_accepted_bid_is_reached, lone, takes_new_id};
use crate::strategy::{ActionModel, Strategy};
use vstd::prelude::*;

verus! {

/// What reconciling does for the bid: a bid that is wanted and not there is placed at its price; one
/// that is there at another price is amended to it; one that is not wanted is cancelled. Nothing
/// else is done, and the price of the offer has no part in it.
pub open spec fn right_for_bid(action: ActionModel, bid: int, mine: Option<OrderModel>) -> bool {
    match (action, mine) {
        (ActionModel::PlaceBid { price_cents, count }, None) => bid > 0 && price_cents == bid && count == 1,
        (ActionModel::AmendBid { order_id, client_order_id, new_price_cents, count }, Some(order)) => {
            &&& bid > 0
            &&& order.price_cents != bid
            &&& order_id == order.order_id
            &&& client_order_id == order.client_order_id
            &&& new_price_cents == bid
            &&& count == 1
        },
        (ActionModel::CancelOrder { order_id }, Some(order)) => bid == 0 && order_id == order.order_id,
        _ => false,
    }
}

/// What reconciling does for the offer, which rests as a bid for NO at 100 cents less its price.
pub open spec fn right_for_ask(action: ActionModel, ask: int, mine: Option<OrderModel>) -> bool {
    match (action, mine) {
        (ActionModel::PlaceAsk { price_cents, count }, None) => ask > 0 && price_cents == ask && count == 1,
        (ActionModel::AmendAsk { order_id, client_order_id, new_price_cents, count }, Some(order)) => {
            &&& ask > 0
            &&& order.price_cents + ask != 100
            &&& order_id == order.order_id
            &&& client_order_id == order.client_order_id
            &&& new_price_cents + ask == 100
            &&& count == 1
        },
        (ActionModel::CancelOrder { order_id }, Some(order)) => ask == 0 && order_id == order.order_id,
        _ => false,
    }
}

/// Whether something has to be done for a side: it is wanted at `price` and not there at it, or it is
/// there and not wanted.
pub open spec fn out_of_place(wanted: int, price: int, mine: Option<OrderModel>) -> bool {
    match mine {
        Some(order) => wanted == 0 || (wanted > 0 && order.price_cents != price),
        None => wanted > 0,
    }
}

/// Reconciling takes exactly one action for each side that is out of place, the bid's before the
/// offer's, and each is the right one for its own side.
pub proof fn law_each_side_is_reconciled(bid: int, ask: int, orders: Seq<OrderModel>, ticker: Seq<char>)
    ensures
        ({
            let actions = Strategy::actions_for(bid, ask, orders, ticker);
            let my_bid = first_working(orders, ticker, "yes"@);
            let my_ask = first_working(orders, ticker, "no"@);
            let bid_off = out_of_place(bid, bid, my_bid);
            let ask_off = out_of_place(ask, 100 - ask, my_ask);
            &&& actions.len() == (if bid_off {
                1int
            } else {
                0
            }) + (if ask_off {
                1int
            } else {
                0
            })
            &&& bid_off ==> right_for_bid(actions[0], bid, my_bid)
            &&& ask_off ==> right_for_ask(actions[actions.len() - 1], ask, my_ask)
        }),
{
    let actions = Strategy::actions_for(bid, ask, orders, ticker);
    let bids = Strategy::bid_actions(bid, first_working(orders, ticker, "yes"@));
    let asks = Strategy::ask_actions(ask, first_working(orders, ticker, "no"@));
    assert(actions == bids + asks);
    if bids.len() > 0 {
        assert(actions[0] == bids[0]);
    }
    if asks.len() > 0 {
        assert(actions[actions.len() - 1] == asks[0]);
    }
}

/// Whatever reconciling places or amends carries the price that is wanted on its own side, for one
/// contract, and it cancels only an order whose side is not wanted.
pub proof fn law_actions_carry_the_wanted_prices(bid: int, ask: int, orders: Seq<OrderModel>, ticker: Seq<char>)
    ensures
        forall|i: int|
            0 <= i < Strategy::actions_for(bid, ask, orders, ticker).len() ==> match #[trigger] Strategy::actions_for(
                bid,
                ask,
                orders,
                ticker,
            )[i] {
                ActionModel::PlaceBid { price_cents, count } => price_cents == bid && count == 1,
                ActionModel::AmendBid { new_price_cents, count, .. } => new_price_cents == bid && count == 1,
                ActionModel::PlaceAsk { price_cents, count } => price_cents == ask && count == 1,
                ActionModel::AmendAsk { new_price_cents, count, .. } => new_price_cents == 100 - ask && count == 1,
                ActionModel::CancelOrder { order_id } => {
                    ||| bid == 0 && (first_working(orders, ticker, "yes"@) matches Some(order) && order.order_id
                        == order_id)
                    ||| ask == 0 && (first_working(orders, ticker, "no"@) matches Some(order) && order.order_id
                        == order_id)
                },
                ActionModel::CancelAll => false,
            },
{
    let actions = Strategy::actions_for(bid, ask, orders, ticker);
    law_each_side_is_reconciled(bid, ask, orders, ticker);
    assert(forall|i: int| 0 <= i < actions.len() ==> #[trigger] actions[i] == actions[0] || i == actions.len() - 1);
}

/// The whole quote is reached: once the exchange has taken all actions of reconciling, under ids of
/// their own, the bid in the market is at the wanted price and the offer at the complement of its own,
/// and a side that is not wanted is not there.
pub proof fn law_whole_quote_is_reached(
    orders: Seq<OrderModel>,
    ticker: Seq<char>,
    bid: int,
    ask: int,
    bid_reply: ReplyModel,
    ask_reply: ReplyModel,
    now_ms: int,
)
    requires
        distinct_ids(orders),
        lone(orders, ticker, "yes"@),
        lone(orders, ticker, "no"@),
        bid >= 0,
        ask >= 0,
        bid == 0 ==> bid_reply is Done,
        ask == 0 ==> ask_reply is Done,
        bid > 0 ==> takes_new_id(bid_reply, orders),
        ask > 0 ==> takes_new_id(ask_reply, orders),
        bid > 0 && ask > 0 ==> bid_reply->Order_order_id != ask_reply->Order_order_id,
    ensures
        ({
            let actions = Strategy::actions_for(bid, ask, orders, ticker);
            let bid_off = out_of_place(bid, bid, first_working(orders, ticker, "yes"@));
            let ask_off = out_of_place(ask, 100 - ask, first_working(orders, ticker, "no"@));
            let between = if bid_off {
                settled(orders, actions[0], bid_reply, ticker, now_ms)
            } else {
                orders
            };
            let after = if ask_off {
                settled(between, actions[actions.len() - 1], ask_reply, ticker, now_ms)
            } else {
                between
            };
            &&& match first_working(after, ticker, "yes"@) {
                Some(order) => bid > 0 && order.price_cents == bid,
                None => bid == 0,
            }
            &&& match first_working(after, ticker, "no"@) {
                Some(order) => ask > 0 && order.price_cents == 100 - ask,
                None => ask == 0,
            }
        }),
{
    let actions = Strategy::actions_for(bid, ask, orders, ticker);
    let my_bid = first_working(orders, ticker, "yes"@);
    let my_ask = first_working(orders, ticker, "no"@);
    let bids = Strategy::bid_actions(bid, my_bid);
    let asks = Strategy::ask_actions(ask, my_ask);
    let bid_off = out_of_place(bid, bid, my_bid);
    let ask_off = out_of_place(ask, 100 - ask, my_ask);
    assert(actions == bids + asks);
    law_each_side_is_reconciled(bid, ask, orders, ticker);
    law_accepted_bid_is_reached(orders, ticker, bid, bid_reply, now_ms);
    let between = if bid_off {
        settled(orders, actions[0], bid_reply, ticker, now_ms)
    } else {
        orders
    };
    if bid_off {
        assert(actions[0] == bids[0]);
        lemma_other_side_is_kept(orders, ticker, "yes"@, "no"@, bids[0], bid_reply, now_ms);
    }
    law_accepted_ask_is_reached(between, ticker, ask, ask_reply, now_ms);
    if ask_off {
        assert(actions[actions.len() - 1] == asks[0]);
        lemma_other_side_is_kept(between, ticker, "no"@, "yes"@, asks[0], ask_reply, now_ms);
    }
}

/// Settling an action for one side leaves the own order on the other side as it was.
proof fn lemma_other_side_is_kept(
    orders: Seq<OrderModel>,
    ticker: Seq<char>,
    side: Seq<char>,
    other: Seq<char>,
    action: ActionModel,
    reply: ReplyModel,
    now_ms: int,
)
    requires
        distinct_ids(orders),
        side == "yes"@ && other == "no"@ || side == "no"@ && other == "yes"@,
        match first_working(orders, ticker, side) {
            Some(mine) => match action {
                ActionModel::CancelOrder { order_id } => order_id == mine.order_id && reply is Done,
                ActionModel::AmendBid { order_id, .. } => order_id == mine.order_id && side == "yes"@ && takes_new_id(
                    reply,
                    orders,
                ),
                ActionModel::AmendAsk { order_id, .. } => order_id == mine.order_id && side == "no"@ && takes_new_id(
                    reply,
                    orders,
                ),
                _ => false,
            },
            None => match action {
                ActionModel::PlaceBid { .. } => side == "yes"@ && takes_new_id(reply, orders),
                ActionModel::PlaceAsk { .. } => side == "no"@ && takes_new_id(reply, orders),
                _ => false,
            },
        },
    ensures
        ({
            let after = settled(orders, action, reply, ticker, now_ms);
            &&& first_working(after, ticker, other) == first_working(orders, ticker, other)
            &&& lone(orders, ticker, other) ==> lone(after, ticker, other)
            &&& distinct_ids(after)
            &&& forall|i: int|
                0 <= i < after.len() ==> tracks(orders, (#[trigger] after[i]).order_id) || (reply matches ReplyModel::Order {
                    order_id,
                    ..
                } && order_id == after[i].order_id)
        }),
{
    assert("yes"@ != "no"@) by {
        reveal_strlit("yes");
        reveal_strlit("no");
        assert("yes"@.len() != "no"@.len());
    }
    let after = settled(orders, action, reply, ticker, now_ms);
    law_own_order_is_the_first(orders, ticker, side);
    let mine = first_working(orders, ticker, side);
    let at = match mine {
        Some(order) => choose|i: int| 0 <= i < orders.len() && #[trigger] orders[i] == order,
        None => -1,
    };
    if action is CancelOrder {
        law_status_of_one_order(orders, mine->0.order_id, OrderStatus::PendingCancel);
        assert forall|i: int| 0 <= i < orders.len() implies after[i] == (if i == at {
            OrderModel { status: OrderStatus::PendingCancel, ..orders[at] }
        } else {
            #[trigger] orders[i]
        }) by {
            assert(i < at ==> orders[i].order_id != orders[at].order_id);
            assert(at < i ==> orders[at].order_id != orders[i].order_id);
        }
        lemma_same_first(orders, after, ticker, other, orders.len() as int, orders.len() as int);
        assert forall|i: int| 0 <= i < after.len() implies tracks(orders, (#[trigger] after[i]).order_id) by {
            assert(orders[i].order_id == after[i].order_id);
        }
        assert forall|i: int, j: int| 0 <= i < j < after.len() implies (#[trigger] after[i]).order_id != (
        #[trigger] after[j]).order_id by {
            assert(orders[i].order_id != orders[j].order_id);
        }
    } else {
        let new_id = reply->Order_order_id;
        let client = reply->Order_client_order_id;
        assert forall|i: int| 0 <= i < orders.len() implies (#[trigger] orders[i]).order_id != new_id by {
            assert(!tracks(orders, new_id));
        }
        law_reply_with_an_order(orders, action, new_id, client, ticker, now_ms);
        let gap = match mine {
            Some(_) => at,
            None => orders.len() as int,
        };
        let rest = after.drop_last();
        if mine is Some {
            assert(orders[at].order_id == mine->0.order_id);
            assert(rest == orders.take(at) + orders.skip(at + 1));
        } else {
            assert(rest == orders);
        }
        assert(after =~= rest.push(after.last()));
        lemma_same_first(orders, after, ticker, other, gap, after.len() - 1);
        assert forall|i: int| 0 <= i < after.len() implies tracks(orders, (#[trigger] after[i]).order_id)
            || after[i].order_id == new_id by {
            if i < rest.len() {
                let from = if i < gap { i } else { i + 1 };
                assert(orders[from] == after[i]);
            }
        }
        assert forall|i: int, j: int| 0 <= i < j < after.len() implies (#[trigger] after[i]).order_id != (
        #[trigger] after[j]).order_id by {
            let a = if i < gap { i } else { i + 1 };
            let b = if j < gap { j } else { j + 1 };
            assert(after[i] == orders[a]);
            if j < rest.len() {
                assert(after[j] == orders[b]);
            }
        }
    }
}

/// Two lists have the same first buy of a side, and at most one where the first has, if the second
/// comes of the first by leaving out the order at `gap`, by orders that do not buy that side at the
/// place `added`, and by changes to orders that do not buy it.
proof fn lemma_same_first(
    orders: Seq<OrderModel>,
    after: Seq<OrderModel>,
    ticker: Seq<char>,
    side: Seq<char>,
    gap: int,
    added: int,
)
    requires
        0 <= gap <= orders.len(),
        gap < orders.len() ==> !buys(orders[gap], ticker, side),
        added == (if gap < orders.len() {
            orders.len() - 1
        } else {
            orders.len() as int
        }),
        added <= after.len() <= added + 1,
        added < after.len() ==> !buys(after[added], ticker, side),
        forall|i: int|
            0 <= i < added ==> {
                let from = if i < gap {
                    i
                } else {
                    i + 1
                };
                #[trigger] after[i] == orders[from] || (!buys(after[i], ticker, side) && !buys(
                    orders[from],
                    ticker,
                    side,
                ))
            },
    ensures
        first_working(after, ticker, side) == first_working(orders, ticker, side),
        lone(orders, ticker, side) ==> lone(after, ticker, side),
{
    law_own_order_is_the_first(orders, ticker, side);
    law_own_order_is_the_first(after, ticker, side);
    if lone(orders, ticker, side) {
        assert forall|i: int, j: int| 0 <= i < j < after.len() implies !(is_working_buy(
            #[trigger] after[i],
            ticker,
            side,
        ) && is_working_buy(#[trigger] after[j], ticker, side)) by {
            let a = if i < gap { i } else { i + 1 };
            let b = if j < gap { j } else { j + 1 };
            if buys(after[i], ticker, side) && buys(after[j], ticker, side) {
                assert(after[i] == orders[a] && after[j] == orders[b]);
                assert(is_working_buy(orders[a], ticker, side) && is_working_buy(orders[b], ticker, side));
            }
        }
    }
    match first_working(orders, ticker, side) {
        Some(order) => {
            let k = choose|k: int|
                0 <= k < orders.len() && #[trigger] orders[k] == order && buys(order, ticker, side) && (forall|j: int|
                    0 <= j < k ==> !buys(#[trigger] orders[j], ticker, side));
            let i = if k < gap { k } else { k - 1 };
            assert(k != gap);
            assert(after[i] == orders[k]);
            assert forall|j: int| 0 <= j < i implies !buys(#[trigger] after[j], ticker, side) by {
                let a = if j < gap { j } else { j + 1 };
                assert(!buys(orders[a], ticker, side));
            }
            let first = choose|m: int|
                0 <= m < after.len() && #[trigger] after[m] == first_working(after, ticker, side)->0 && buys(
                    after[m],
                    ticker,
                    side,
                ) && (forall|j: int| 0 <= j < m ==> !buys(#[trigger] after[j], ticker, side));
            assert(first == i);
        },
        None => {
            if let Some(order) = first_working(after, ticker, side) {
                let i = choose|i: int| 0 <= i < after.len() && #[trigger] after[i] == order && buys(order, ticker, side);
                let a = if i < gap { i } else { i + 1 };
                assert(!buys(orders[a], ticker, side));
            }
        },
    }
}

/// What is sent is what is tracked: an action that places or amends asks the exchange for the very
/// side, price and count that the order has once the exchange has taken it. A bid buys YES at its
/// price; an offer buys NO at 100 cents less its price; an amendment names the order that it amends
/// and keeps its side.
pub proof fn law_request_is_for_the_tracked_order(
    action: ActionModel,
    orders: Seq<OrderModel>,
    ticker: Seq<char>,
    order_id: Seq<char>,
    client_order_id: Seq<char>,
    now_ms: int,
)
    ensures
        ({
            let reply = ReplyModel::Order { order_id, client_order_id };
            let request = request_of(action, orders, ticker);
            let came = fired_order(action, reply, ticker, now_ms);
            match action {
                ActionModel::PlaceBid { price_cents, count } => {
                    &&& request == Some(RequestModel::Buy { side: "yes"@, price_cents, count })
                    &&& came matches Some((replaced, order)) && replaced is None && fresh(
                        order,
                        order_id,
                        client_order_id,
                        ticker,
                        "yes"@,
                        price_cents,
                        count,
                        now_ms,
                    )
                },
                ActionModel::PlaceAsk { price_cents, count } => {
                    &&& request matches Some(RequestModel::Buy { side, price_cents: sent, count: n }) && side == "no"@
                        && sent + price_cents == 100 && n == count
                    &&& came matches Some((replaced, order)) && replaced is None && fresh(
                        order,
                        order_id,
                        client_order_id,
                        ticker,
                        "no"@,
                        100 - price_cents,
                        count,
                        now_ms,
                    )
                },
                ActionModel::AmendBid { order_id: id, client_order_id: client, new_price_cents, count } => {
                    &&& request == Some(
                        RequestModel::Amend {
                            order_id: id,
                            client_order_id: client,
                            side: "yes"@,
                            price_cents: new_price_cents,
                            count,
                        },
                    )
                    &&& came matches Some((replaced, order)) && replaced == Some(id) && fresh(
                        order,
                        order_id,
                        client_order_id,
                        ticker,
                        "yes"@,
                        new_price_cents,
                        count,
                        now_ms,
                    )
                },
                ActionModel::AmendAsk { order_id: id, client_order_id: client, new_price_cents, count } => {
                    &&& request == Some(
                        RequestModel::Amend {
                            order_id: id,
                            client_order_id: client,
                            side: "no"@,
                            price_cents: new_price_cents,
                            count,
                        },
                    )
                    &&& came matches Some((replaced, order)) && replaced == Some(id) && fresh(
                        order,
                        order_id,
                        client_order_id,
                        ticker,
                        "no"@,
                        new_price_cents,
                        count,
                        now_ms,
                    )
                },
                ActionModel::CancelOrder { order_id: id } => request == Some(RequestModel::Cancel { order_id: id })
                    && came is None,
                ActionModel::CancelAll => came is None,
            }
        }),
{
}

/// Whether `order` is one to buy that was just sent: all of it is open, and it is not confirmed yet.
pub open spec fn fresh(
    order: OrderModel,
    order_id: Seq<char>,
    client_order_id: Seq<char>,
    ticker: Seq<char>,
    side: Seq<char>,
    price_cents: int,
    count: int,
    now_ms: int,
) -> bool {
    &&& order.order_id == order_id
    &&& order.client_order_id == client_order_id
    &&& order.ticker == ticker
    &&& order.side == side
    &&& order.action == "buy"@
    &&& order.price_cents == price_cents
    &&& order.count == count
    &&& order.remaining == count
    &&& order.status == OrderStatus::PendingNew
    &&& order.created_ms == now_ms
}

/// A reply that brings no order changes only the one order that its action names: a confirmed
/// cancellation leaves it waiting to go, a failed amendment leaves it resting; a failed cancellation
/// and a failed placement change nothing. A place in the list is kept.
pub proof fn law_reply_without_an_order(
    orders: Seq<OrderModel>,
    action: ActionModel,
    reply: ReplyModel,
    ticker: Seq<char>,
    now_ms: int,
)
    requires
        distinct_ids(orders),
        !(action is CancelAll),
        !(reply is Order),
    ensures
        ({
            let after = settled(orders, action, reply, ticker, now_ms);
            &&& after.len() == orders.len()
            &&& forall|i: int|
                0 <= i < orders.len() ==> (#[trigger] after[i]) == (match action {
                    ActionModel::CancelOrder { order_id } if reply is Done && orders[i].order_id == order_id => OrderModel {
                        status: OrderStatus::PendingCancel,
                        ..orders[i]
                    },
                    ActionModel::AmendBid { order_id, .. } if orders[i].order_id == order_id => OrderModel {
                        status: OrderStatus::Resting,
                        ..orders[i]
                    },
                    ActionModel::AmendAsk { order_id, .. } if orders[i].order_id == order_id => OrderModel {
                        status: OrderStatus::Resting,
                        ..orders[i]
                    },
                    _ => orders[i],
                })
        }),
{
    match action {
        ActionModel::CancelOrder { order_id } => {
            law_status_of_one_order(orders, order_id, OrderStatus::PendingCancel);
        },
        ActionModel::AmendBid { order_id, .. } => {
            law_status_of_one_order(orders, order_id, OrderStatus::Resting);
        },
        ActionModel::AmendAsk { order_id, .. } => {
            law_status_of_one_order(orders, order_id, OrderStatus::Resting);
        },
        _ => {},
    }
}

/// An order that the exchange has taken, under a new id or under that of the order that it amends,
/// comes to the end of the list. All others stay, in their order, but for the one that was amended.
pub proof fn law_reply_with_an_order(
    orders: Seq<OrderModel>,
    action: ActionModel,
    order_id: Seq<char>,
    client_order_id: Seq<char>,
    ticker: Seq<char>,
    now_ms: int,
)
    requires
        distinct_ids(orders),
        !(action is CancelAll) && !(action is CancelOrder),
        forall|i: int|
            0 <= i < orders.len() ==> (#[trigger] orders[i]).order_id != order_id || amends(action, orders[i].order_id),
    ensures
        ({
            let after = settled(orders, action, ReplyModel::Order { order_id, client_order_id }, ticker, now_ms);
            let replaced = match action {
                ActionModel::AmendBid { order_id: id, .. } => Some(id),
                ActionModel::AmendAsk { order_id: id, .. } => Some(id),
                _ => None,
            };
            &&& after.len() > 0 && after.last().order_id == order_id && after.last().client_order_id == client_order_id
            &&& match action {
                ActionModel::PlaceBid { price_cents, count } => fresh(
                    after.last(),
                    order_id,
                    client_order_id,
                    ticker,
                    "yes"@,
                    price_cents,
                    count,
                    now_ms,
                ),
                ActionModel::PlaceAsk { price_cents, count } => fresh(
                    after.last(),
                    order_id,
                    client_order_id,
                    ticker,
                    "no"@,
                    100 - price_cents,
                    count,
                    now_ms,
                ),
                ActionModel::AmendBid { new_price_cents, count, .. } => fresh(
                    after.last(),
                    order_id,
                    client_order_id,
                    ticker,
                    "yes"@,
                    new_price_cents,
                    count,
                    now_ms,
                ),
                ActionModel::AmendAsk { new_price_cents, count, .. } => fresh(
                    after.last(),
                    order_id,
                    client_order_id,
                    ticker,
                    "no"@,
                    new_price_cents,
                    count,
                    now_ms,
                ),
                _ => false,
            }
            &&& forall|k: int|
                0 <= k < orders.len() && Some((#[trigger] orders[k]).order_id) == replaced ==> after.drop_last()
                    == orders.take(k) + orders.skip(k + 1)
            &&& (forall|k: int| 0 <= k < orders.len() ==> Some((#[trigger] orders[k]).order_id) != replaced)
                ==> after.drop_last() == orders
        }),
{
    let reply = ReplyModel::Order { order_id, client_order_id };
    let after = settled(orders, action, reply, ticker, now_ms);
    let replaced = match action {
        ActionModel::AmendBid { order_id: id, .. } => Some(id),
        ActionModel::AmendAsk { order_id: id, .. } => Some(id),
        _ => None,
    };
    let rest = match replaced {
        Some(id) => removed(orders, id),
        None => orders,
    };
    if let Some(id) = replaced {
        law_removing_one_order(orders, id);
        lemma_place_of(orders, id);
    }
    assert forall|i: int| 0 <= i < rest.len() implies (#[trigger] rest[i]).order_id != order_id by {
        if let Some(id) = replaced {
            if tracks(orders, id) {
                let at = place_of(orders, id);
                let from = if i < at { i } else { i + 1 };
                assert(rest[i] == orders[from]);
                assert(from < at ==> orders[from].order_id != orders[at].order_id);
                assert(at < from ==> orders[at].order_id != orders[from].order_id);
            }
        }
    }
    assert(!tracks(rest, order_id));
    assert(after.drop_last() =~= rest);
    if let Some(id) = replaced {
        if tracks(orders, id) {
            let at = place_of(orders, id);
            assert(orders[at].order_id == id);
        }
    }
}

/// An action that was carried out beside others and failed brings nothing.
pub proof fn law_failed_action_brings_nothing(action: ActionModel, reply: ReplyModel, ticker: Seq<char>, now_ms: int)
    requires
        !(reply is Order),
    ensures
        fired_order(action, reply, ticker, now_ms) is None,
{
}

/// Tracking an order puts it in the place of the one with its id, or at the end where there is none,
/// and leaves all others as they are.
pub proof fn law_tracking_one_order(orders: Seq<OrderModel>, order: OrderModel)
    requires
        distinct_ids(orders),
    ensures
        forall|k: int|
            0 <= k < orders.len() && (#[trigger] orders[k]).order_id == order.order_id ==> with_order(orders, order)
                == orders.update(k, order),
        (forall|k: int| 0 <= k < orders.len() ==> (#[trigger] orders[k]).order_id != order.order_id) ==> with_order(
            orders,
            order,
        ) == orders.push(order),
{
    lemma_place_of(orders, order.order_id);
    let at = place_of(orders, order.order_id);
    assert forall|k: int| 0 <= k < orders.len() && (#[trigger] orders[k]).order_id == order.order_id implies k == at by {
        assert(k < at ==> orders[k].order_id != order.order_id);
        assert(at < k ==> orders[at].order_id != orders[k].order_id);
    }
}

/// Removing an order takes out the one with that id and leaves all others as they are, in order.
pub proof fn law_removing_one_order(orders: Seq<OrderModel>, id: Seq<char>)
    requires
        distinct_ids(orders),
    ensures
        forall|k: int|
            0 <= k < orders.len() && (#[trigger] orders[k]).order_id == id ==> removed(orders, id) == orders.take(k)
                + orders.skip(k + 1),
        (forall|k: int| 0 <= k < orders.len() ==> (#[trigger] orders[k]).order_id != id) ==> removed(orders, id)
            == orders,
{
    lemma_place_of(orders, id);
    let at = place_of(orders, id);
    assert forall|k: int| 0 <= k < orders.len() && (#[trigger] orders[k]).order_id == id implies removed(orders, id)
        == orders.take(k) + orders.skip(k + 1) by {
        assert(k < at ==> orders[k].order_id != id);
        assert(at < k ==> orders[at].order_id != orders[k].order_id);
        assert(removed(orders, id) =~= orders.take(k) + orders.skip(k + 1));
    }
}

/// A new status is that of the order with that id; nothing else of it changes, and no other order.
pub proof fn law_status_of_one_order(orders: Seq<OrderModel>, id: Seq<char>, status: OrderStatus)
    requires
        distinct_ids(orders),
    ensures
        with_status(orders, id, status).len() == orders.len(),
        forall|i: int|
            0 <= i < orders.len() ==> (#[trigger] with_status(orders, id, status)[i]) == (if orders[i].order_id == id {
                OrderModel { status, ..orders[i] }
            } else {
                orders[i]
            }),
{
    lemma_place_of(orders, id);
    let at = place_of(orders, id);
    assert forall|i: int| 0 <= i < orders.len() implies (#[trigger] with_status(orders, id, status)[i]) == (
    if orders[i].order_id == id {
        OrderModel { status, ..orders[i] }
    } else {
        orders[i]
    }) by {
        if orders[i].order_id == id {
            assert(i < at ==> orders[i].order_id != id);
            assert(at < i ==> orders[at].order_id != orders[i].order_id);
        }
    }
}

/// A fill takes its count off what remains of the order with that id, and the order is executed once
/// nothing remains; nothing else of it changes, and no other order.
pub proof fn law_fill_of_one_order(orders: Seq<OrderModel>, id: Seq<char>, count: int)
    requires
        distinct_ids(orders),
    ensures
        with_fill(orders, id, count).len() == orders.len(),
        forall|i: int|
            0 <= i < orders.len() && orders[i].order_id != id ==> (#[trigger] with_fill(orders, id, count)[i])
                == orders[i],
        forall|i: int|
            0 <= i < orders.len() && orders[i].order_id == id ==> (#[trigger] with_fill(orders, id, count)[i]) == (
            OrderModel {
                remaining: orders[i].remaining - count,
                status: if orders[i].remaining > count {
                    orders[i].status
                } else {
                    OrderStatus::Executed
                },
                ..orders[i]
            }),
{
    lemma_place_of(orders, id);
    let at = place_of(orders, id);
    assert forall|i: int| 0 <= i < orders.len() && orders[i].order_id == id implies i == at by {
        assert(i < at ==> orders[i].order_id != id);
        assert(at < i ==> orders[at].order_id != orders[i].order_id);
    }
}

/// Forgetting old orders goes order by order: one that is cancelled or executed is dropped once it is
/// older than the limit, every other one is kept.
pub proof fn law_old_orders_are_forgotten(orders: Seq<OrderModel>, order: OrderModel, now_ms: int, max_age_ms: int)
    ensures
        collected(Seq::empty(), now_ms, max_age_ms) == Seq::<OrderModel>::empty(),
        collected(orders.push(order), now_ms, max_age_ms) == (if (order.status == OrderStatus::Canceled || order.status
            == OrderStatus::Executed) && now_ms - order.created_ms > max_age_ms {
            collected(orders, now_ms, max_age_ms)
        } else {
            collected(orders, now_ms, max_age_ms).push(order)
        }),
{
    assert(orders.push(order).drop_last() =~= orders);
}

/// The orders to cancel when all are to go are those of the market that are there or on their way
/// there, order by order.
pub proof fn law_working_orders_are_listed(orders: Seq<OrderModel>, order: OrderModel, ticker: Seq<char>)
    ensures
        working_ids(Seq::empty(), ticker) == Seq::<Seq<char>>::empty(),
        working_ids(orders.push(order), ticker) == (if order.ticker == ticker && (order.status == OrderStatus::PendingNew
            || order.status == OrderStatus::Resting || order.status == OrderStatus::PendingAmend) {
            working_ids(orders, ticker).push(order.order_id)
        } else {
            working_ids(orders, ticker)
        }),
{
    assert(orders.push(order).drop_last() =~= orders);
}

/// Actions part into those that cancel and the rest, each in the order in which they came, action by
/// action.
pub proof fn law_actions_part(actions: Seq<ActionModel>, action: ActionModel)
    ensures
        cancelling(Seq::empty(), true) == Seq::<ActionModel>::empty(),
        cancelling(Seq::empty(), false) == Seq::<ActionModel>::empty(),
        action is CancelOrder || action is CancelAll ==> {
            &&& cancelling(actions.push(action), true) == cancelling(actions, true).push(action)
            &&& cancelling(actions.push(action), false) == cancelling(actions, false)
        },
        !(action is CancelOrder) && !(action is CancelAll) ==> {
            &&& cancelling(actions.push(action), true) == cancelling(actions, true)
            &&& cancelling(actions.push(action), false) == cancelling(actions, false).push(action)
        },
{
    reveal(Seq::filter);
    assert(actions.push(action).drop_last() =~= actions);
}

/// One action is carried out on its own, two or more beside one another, none not at all.
pub proof fn law_lone_action_goes_alone(actions: Seq<ActionModel>)
    ensures
        dispatched(actions) == DispatchView::Nothing <==> actions.len() == 0,
        actions.len() == 1 ==> dispatched(actions) == DispatchView::Alone(actions[0]),
        actions.len() >= 2 ==> dispatched(actions) == DispatchView::Together(actions),
{
}

/// Marking before amendments are sent: exactly the orders that one of the actions amends are marked;
/// nothing else of them changes, and no other order.
pub proof fn law_amended_orders_are_marked(orders: Seq<OrderModel>, actions: Seq<ActionModel>)
    requires
        distinct_ids(orders),
    ensures
        with_amends_marked(orders, actions).len() == orders.len(),
        distinct_ids(with_amends_marked(orders, actions)),
        forall|i: int|
            0 <= i < orders.len() ==> (#[trigger] with_amends_marked(orders, actions)[i]) == (if exists|k: int|
                0 <= k < actions.len() && amends(#[trigger] actions[k], orders[i].order_id) {
                OrderModel { status: OrderStatus::PendingAmend, ..orders[i] }
            } else {
                orders[i]
            }),
    decreases actions.len(),
{
    if actions.len() > 0 {
        let front = actions.drop_last();
        let last = actions.last();
        let between = with_amends_marked(orders, front);
        let after = with_amends_marked(orders, actions);
        law_amended_orders_are_marked(orders, front);
        let id = match last {
            ActionModel::AmendBid { order_id, .. } => order_id,
            ActionModel::AmendAsk { order_id, .. } => order_id,
            _ => Seq::empty(),
        };
        law_status_of_one_order(between, id, OrderStatus::PendingAmend);
        assert forall|i: int| 0 <= i < orders.len() implies (#[trigger] after[i]) == (if exists|k: int|
            0 <= k < actions.len() && amends(#[trigger] actions[k], orders[i].order_id) {
            OrderModel { status: OrderStatus::PendingAmend, ..orders[i] }
        } else {
            orders[i]
        }) by {
            let own = orders[i].order_id;
            assert(between[i].order_id == own);
            if exists|k: int| 0 <= k < front.len() && amends(#[trigger] front[k], own) {
                let k = choose|k: int| 0 <= k < front.len() && amends(#[trigger] front[k], own);
                assert(actions[k] == front[k]);
            }
            if exists|k: int| 0 <= k < actions.len() && amends(#[trigger] actions[k], own) {
                let k = choose|k: int| 0 <= k < actions.len() && amends(#[trigger] actions[k], own);
                if k < front.len() {
                    assert(front[k] == actions[k]);
                }
            }
            assert(actions[actions.len() - 1] == last);
        }
        assert forall|i: int, j: int| 0 <= i < j < after.len() implies (#[trigger] after[i]).order_id != (
        #[trigger] after[j]).order_id by {
            assert(after[i].order_id == orders[i].order_id);
            assert(after[j].order_id == orders[j].order_id);
        }
    }
}

/// Whether `action` amends the order called `id`.
pub open spec fn amends(action: ActionModel, id: Seq<char>) -> bool {
    match action {
        ActionModel::AmendBid { order_id, .. } => order_id == id,
        ActionModel::AmendAsk { order_id, .. } => order_id == id,
        _ => false,
    }
}

} // verus!
