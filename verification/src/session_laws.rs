//! What holds of a session across its steps.

use crate::execution::{
    all_removed, distinct_ids, first_working, is_working_buy, lemma_place_of, place_of, removed, tracks, working_ids,
    OrderModel, OrderStatus,
};
use crate::market_data::TrendDirection;
use crate::orders::{adopted, cancel_all_requests, fired_order, settled, ReplyModel, RequestModel};
use crate::risk::{paired, PairBook, RiskManager, RiskState};
use crate::session::{is_disconnect, DecisionView, Event, Outcome, Reaction, Session};
use crate::strategy::{ActionModel, Strategy};
use crate::ws::{disconnect_notice, ending, Frame, MessageView};
use vstd::prelude::*;

verus! {

/// Hard limits: a position at the hard cap or a loss at the day's cap halts trading, and so does
/// the loss of the connection.
pub proof fn law_limits_halt(risk: RiskManager)
    requires
        risk.over_inventory() || risk.over_loss() || !risk.ws_connected || risk.halted is Some,
    ensures
        risk.state() == RiskState::Halted,
{
}

/// A halt is for good: no message of the feed lifts it.
pub proof fn law_halt_is_final(
    before: Session,
    msg: MessageView,
    now_ms: u64,
    after: Session,
    outcome: Outcome,
)
    requires
        before.risk.halted is Some,
        after.heard(before, msg, now_ms, outcome),
    ensures
        after.risk.halted is Some,
        after.risk.state() == RiskState::Halted,
{
}

/// A session ends exactly where the market is about to close, where the feed is closed, and at a
/// gap in the updates of its book. It ends with the profit of the day so far, and with the order to
/// take all orders out of the market.
pub proof fn law_session_ends_only_then(before: Session, event: Event, after: Session, reaction: Reaction)
    requires
        after.stepped(before, event, reaction),
    ensures
        reaction.exit is Some <==> before.ends_at(event),
        reaction.exit matches Some(pnl) ==> {
            &&& pnl == after.risk.daily_pnl_cents
            &&& pnl == before.risk.daily_pnl_cents
            &&& reaction.outcome.cancel_all
            &&& reaction.decision@ == DecisionView::Wait
        },
{
}

/// Once the orders of a session that has ended are taken out of the market, none is left there, and
/// the profit is still the one that the session ended with.
pub proof fn law_ended_session_leaves_no_orders(
    before: Session,
    event: Event,
    ended: Session,
    reaction: Reaction,
    cleared: Session,
)
    requires
        ended.stepped(before, event, reaction),
        before.ends_at(event),
        cleared == (Session { tracker: cleared.tracker, ..ended }),
        cleared.tracker@ == all_removed(ended.tracker@, working_ids(ended.tracker@, ended.ticker@)),
    ensures
        working_ids(cleared.tracker@, before.ticker@) == Seq::<Seq<char>>::empty(),
        reaction.exit == Some(cleared.risk.daily_pnl_cents),
{
    law_cancel_all_clears_the_market(ended.tracker@, ended.ticker@);
}

/// A decision changes neither the book nor the limits, so it lifts no halt either.
pub proof fn law_decisions_keep_book_and_limits(
    before: Session,
    after: Session,
    news: bool,
    trend: TrendDirection,
    now_ms: int,
    decision: DecisionView,
)
    requires
        after.decided(before, news, trend, now_ms, decision),
    ensures
        after.book == before.book,
        after.risk == before.risk,
        after.ticker == before.ticker,
        after.strategy == before.strategy,
{
}

/// The pair profit: from no open contracts, a bid for YES at `bid` and an offer at `ask` that are
/// both filled, in either order, bring the difference of the two prices for each contract, and
/// leave no open contracts. The offer is filled as a bid for NO.
pub proof fn law_filled_pair_brings_the_spread(
    before: RiskManager,
    half: RiskManager,
    after: RiskManager,
    bid: int,
    ask: int,
    count: int,
    bid_first: bool,
    half_position: i64,
    position: i64,
)
    requires
        before.open_contracts == 0,
        before.open_cost_cents == 0,
        0 <= bid <= 100,
        0 <= ask <= 100,
        0 < count,
        count * 100 <= i64::MAX,
        i64::MIN <= before.daily_pnl_cents + count * (ask - bid) <= i64::MAX,
        before.pairs_completed + count <= i64::MAX,
        bid_first ==> half.filled_from(before, "yes"@, "buy"@, bid, count, half_position) && after.filled_from(
            half,
            "no"@,
            "buy"@,
            ask,
            count,
            position,
        ),
        !bid_first ==> half.filled_from(before, "no"@, "buy"@, ask, count, half_position) && after.filled_from(
            half,
            "yes"@,
            "buy"@,
            bid,
            count,
            position,
        ),
    ensures
        after.daily_pnl_cents == before.daily_pnl_cents + count * (ask - bid),
        after.pairs_completed == before.pairs_completed + count,
        after.open_contracts == 0,
        after.open_cost_cents == 0,
        after.inventory == position,
{
    broadcast use vstd::arithmetic::mul::group_mul_basics;

    assert("yes"@ != "no"@) by {
        reveal_strlit("yes");
        reveal_strlit("no");
        assert("yes"@.len() != "no"@.len());
    }
    let first = if bid_first {
        bid
    } else {
        100 - ask
    };
    assert(0 <= count * first <= count * 100) by (nonlinear_arith)
        requires
            0 <= first <= 100,
            0 < count,
    ;
    assert((count * first) * count / count == count * first) by (nonlinear_arith)
        requires
            0 < count,
    ;
    let last = if bid_first {
        100 - ask
    } else {
        bid
    };
    assert(count * (100 - last) - count * first == count * (ask - bid)) by (nonlinear_arith)
        requires
            100 - last - first == ask - bid,
    ;
    assert(half.pair_book() == PairBook {
        open: if bid_first {
            count
        } else {
            -count
        },
        cost: count * first,
        pnl: before.daily_pnl_cents as int,
        pairs: before.pairs_completed as int,
    });
    assert(after.pair_book() == paired(half.pair_book(), !bid_first, last, count));
}

/// Stale data: an update that does not follow on the last one leaves the book as it was, halts
/// trading, takes the orders out of the market and ends the session.
pub proof fn law_gap_stops_trading(
    before: Session,
    msg: MessageView,
    now_ms: u64,
    after: Session,
    outcome: Outcome,
)
    requires
        after.heard(before, msg, now_ms, outcome),
        msg matches MessageView::OrderbookDelta { market_ticker, seq, .. } && market_ticker == before.ticker@ && seq
            != before.book.seq + 1,
    ensures
        after.book == before.book,
        after.risk.state() == RiskState::Halted,
        outcome.cancel_all,
        outcome.rotate,
{
}

/// Stale data: the notice of the end of a connection, by a failure or without one, halts trading,
/// takes the orders out of the market and puts the book out of use.
pub proof fn law_disconnect_stops_trading(
    before: Session,
    failure: Option<Seq<char>>,
    now_ms: u64,
    after: Session,
    outcome: Outcome,
)
    requires
        after.heard(before, disconnect_notice(failure), now_ms, outcome),
    ensures
        after.risk.state() == RiskState::Halted,
        !after.book.initialized,
        outcome.cancel_all,
        !outcome.rotate,
{
    reveal_strlit("WS disconnect: ");
    reveal_strlit("WS disconnect");
    if let MessageView::Error { message, .. } = disconnect_notice(failure) {
        assert("WS disconnect"@ =~= message.subrange(0, "WS disconnect"@.len() as int));
        assert(is_disconnect(message));
    }
}

/// Stale data: every frame that ends the connection, be it a close, the end of the stream or a
/// failure, leads to a notice that halts trading and takes the orders out of the market.
pub proof fn law_every_end_of_the_feed_stops_trading(
    frame: Frame,
    before: Session,
    now_ms: u64,
    after: Session,
    outcome: Outcome,
)
    requires
        frame is Close || frame is End || frame is Broken,
        ending(frame) matches Some(failure) ==> after.heard(before, disconnect_notice(failure), now_ms, outcome),
    ensures
        ending(frame) is Some,
        after.risk.state() == RiskState::Halted,
        !after.book.initialized,
        outcome.cancel_all,
{
    law_disconnect_stops_trading(before, ending(frame)->0, now_ms, after, outcome);
}

/// A book that is out of use comes back into use by a snapshot of the session's own market only.
pub proof fn law_only_a_snapshot_opens_the_book(
    before: Session,
    msg: MessageView,
    now_ms: u64,
    after: Session,
    outcome: Outcome,
)
    requires
        after.heard(before, msg, now_ms, outcome),
        !before.book.initialized,
        after.book.initialized,
    ensures
        msg matches MessageView::OrderbookSnapshot { market_ticker, .. } && market_ticker == before.ticker@,
{
}

/// Messages about the book of another market change neither the book nor the orders.
pub proof fn law_other_markets_are_ignored(
    before: Session,
    msg: MessageView,
    now_ms: u64,
    after: Session,
    outcome: Outcome,
)
    requires
        after.heard(before, msg, now_ms, outcome),
        match msg {
            MessageView::OrderbookSnapshot { market_ticker, .. } => market_ticker != before.ticker@,
            MessageView::OrderbookDelta { market_ticker, .. } => market_ticker != before.ticker@,
            _ => false,
        },
    ensures
        after.book == before.book,
        after.tracker == before.tracker,
        !outcome.book_changed && !outcome.cancel_all && !outcome.rotate,
{
}

/// While trading is halted, or before the book is known, nothing is sent to the market.
pub proof fn law_halted_session_sends_nothing(
    before: Session,
    after: Session,
    news: bool,
    trend: TrendDirection,
    now_ms: int,
    decision: DecisionView,
)
    requires
        after.decided(before, news, trend, now_ms, decision),
        before.risk.state() == RiskState::Halted || !before.book.initialized,
    ensures
        !(decision is Execute),
        before.wanted(trend).bid == 0,
        before.wanted(trend).ask == 0,
{
}

/// Once all working orders of a market are dropped, none is left there, and every other order is
/// still there.
pub proof fn law_cancel_all_clears_the_market(orders: Seq<OrderModel>, ticker: Seq<char>)
    requires
        distinct_ids(orders),
    ensures
        ({
            let after = all_removed(orders, working_ids(orders, ticker));
            &&& working_ids(after, ticker) == Seq::<Seq<char>>::empty()
            &&& first_working(after, ticker, "yes"@) is None
            &&& first_working(after, ticker, "no"@) is None
            &&& forall|i: int|
                0 <= i < orders.len() && !((#[trigger] orders[i]).ticker == ticker && orders[i].status.working())
                    ==> after.contains(orders[i])
        }),
{
    let ids = working_ids(orders, ticker);
    let after = all_removed(orders, ids);
    lemma_working_ids(orders, ticker);
    lemma_all_removed(orders, ids);
    assert forall|k: int| 0 <= k < after.len() implies !((#[trigger] after[k]).ticker == ticker && after[k].status.working()) by {
        assert(orders.contains(after[k]));
        let i = choose|i: int| 0 <= i < orders.len() && orders[i] == after[k];
        if orders[i].ticker == ticker && orders[i].status.working() {
            assert(ids.contains(orders[i].order_id));
        }
    }
    lemma_none_working(after, ticker);
    assert forall|i: int|
        0 <= i < orders.len() && !((#[trigger] orders[i]).ticker == ticker && orders[i].status.working()) implies after.contains(
        orders[i],
    ) by {
        if ids.contains(orders[i].order_id) {
            let k = choose|k: int| 0 <= k < ids.len() && ids[k] == orders[i].order_id;
            let j = choose|j: int|
                0 <= j < orders.len() && (#[trigger] orders[j]).order_id == ids[k] && orders[j].ticker == ticker
                    && orders[j].status.working();
            if i < j {
                assert(orders[i].order_id != orders[j].order_id);
            } else if j < i {
                assert(orders[j].order_id != orders[i].order_id);
            }
        }
    }
}

/// The cancellation of all orders: with no working order there is no request and nothing changes;
/// else all working orders are cancelled by one request, and only if that fails each of them, once,
/// by a request of its own. Whatever the reply, each of them is dropped, and every other order is
/// still there.
pub proof fn law_cancellation_of_all_orders(
    orders: Seq<OrderModel>,
    ticker: Seq<char>,
    reply: ReplyModel,
    now_ms: int,
)
    requires
        distinct_ids(orders),
    ensures
        ({
            let ids = working_ids(orders, ticker);
            let requests = cancel_all_requests(orders, ticker, reply);
            let after = settled(orders, ActionModel::CancelAll, reply, ticker, now_ms);
            &&& ids.no_duplicates()
            &&& ids.len() == 0 ==> requests.len() == 0 && after == orders
            &&& ids.len() > 0 ==> requests.len() > 0 && requests[0] == (RequestModel::CancelMany { order_ids: ids })
            &&& ids.len() > 0 && !(reply is Failed) ==> requests.len() == 1
            &&& ids.len() > 0 && reply is Failed ==> requests.len() == 1 + ids.len() && forall|i: int|
                0 <= i < ids.len() ==> requests[i + 1] == (RequestModel::Cancel { order_id: #[trigger] ids[i] })
            &&& forall|i: int| 0 <= i < ids.len() ==> !tracks(after, #[trigger] ids[i])
            &&& forall|i: int|
                0 <= i < orders.len() && !ids.contains((#[trigger] orders[i]).order_id) ==> after.contains(orders[i])
        }),
{
    let ids = working_ids(orders, ticker);
    let after = all_removed(orders, ids);
    lemma_working_ids_distinct(orders, ticker);
    lemma_all_removed(orders, ids);
    assert forall|i: int| 0 <= i < ids.len() implies !tracks(after, #[trigger] ids[i]) by {
        if tracks(after, ids[i]) {
            let k = choose|k: int| 0 <= k < after.len() && (#[trigger] after[k]).order_id == ids[i];
            assert(ids.contains(after[k].order_id));
        }
    }
}

/// An accepted order comes out the same whether its action was carried out on its own or beside
/// others.
pub proof fn law_fired_and_settled_agree(
    orders: Seq<OrderModel>,
    action: ActionModel,
    order_id: Seq<char>,
    client_order_id: Seq<char>,
    ticker: Seq<char>,
    now_ms: int,
)
    requires
        !(action is CancelOrder) && !(action is CancelAll),
    ensures
        ({
            let reply = ReplyModel::Order { order_id, client_order_id };
            fired_order(action, reply, ticker, now_ms) matches Some((replaced, order)) && settled(
                orders,
                action,
                reply,
                ticker,
                now_ms,
            ) == adopted(orders, replaced, order)
        }),
{
}

/// Whether at most one working order buys `side` in the market `ticker`.
pub open spec fn lone(orders: Seq<OrderModel>, ticker: Seq<char>, side: Seq<char>) -> bool {
    forall|i: int, j: int|
        0 <= i < j < orders.len() ==> !(is_working_buy(#[trigger] orders[i], ticker, side) && is_working_buy(
            #[trigger] orders[j],
            ticker,
            side,
        ))
}

/// Whether the exchange has taken an order under an id that none of `orders` has.
pub open spec fn takes_new_id(reply: ReplyModel, orders: Seq<OrderModel>) -> bool {
    match reply {
        ReplyModel::Order { order_id, .. } => !tracks(orders, order_id),
        _ => false,
    }
}

/// The quote is reached: once the exchange has taken the action for the bid, under an id that no
/// other order has, the bid in the market is the desired one, and there is none where none is
/// desired.
pub proof fn law_accepted_bid_is_reached(
    orders: Seq<OrderModel>,
    ticker: Seq<char>,
    bid: int,
    reply: ReplyModel,
    now_ms: int,
)
    requires
        distinct_ids(orders),
        lone(orders, ticker, "yes"@),
        bid >= 0,
        bid == 0 ==> reply is Done,
        bid > 0 ==> takes_new_id(reply, orders),
    ensures
        ({
            let actions = Strategy::bid_actions(bid, first_working(orders, ticker, "yes"@));
            let after = if actions.len() == 0 {
                orders
            } else {
                settled(orders, actions[0], reply, ticker, now_ms)
            };
            match first_working(after, ticker, "yes"@) {
                Some(order) => bid > 0 && order.price_cents == bid,
                None => bid == 0,
            }
        }),
{
    let actions = Strategy::bid_actions(bid, first_working(orders, ticker, "yes"@));
    if actions.len() > 0 {
        lemma_side_is_reached(orders, ticker, "yes"@, bid, actions[0], reply, now_ms);
    }
}

/// The quote is reached: as for the bid, so for the offer, which rests as a bid for NO at the
/// complement of its price.
pub proof fn law_accepted_ask_is_reached(
    orders: Seq<OrderModel>,
    ticker: Seq<char>,
    ask: int,
    reply: ReplyModel,
    now_ms: int,
)
    requires
        distinct_ids(orders),
        lone(orders, ticker, "no"@),
        ask >= 0,
        ask == 0 ==> reply is Done,
        ask > 0 ==> takes_new_id(reply, orders),
    ensures
        ({
            let actions = Strategy::ask_actions(ask, first_working(orders, ticker, "no"@));
            let after = if actions.len() == 0 {
                orders
            } else {
                settled(orders, actions[0], reply, ticker, now_ms)
            };
            match first_working(after, ticker, "no"@) {
                Some(order) => ask > 0 && order.price_cents == 100 - ask,
                None => ask == 0,
            }
        }),
{
    let actions = Strategy::ask_actions(ask, first_working(orders, ticker, "no"@));
    if actions.len() > 0 {
        lemma_side_is_reached(orders, ticker, "no"@, 100 - ask, actions[0], reply, now_ms);
    }
}

proof fn lemma_first_working(orders: Seq<OrderModel>, ticker: Seq<char>, side: Seq<char>)
    ensures
        first_working(orders, ticker, side) is None <==> forall|i: int|
            0 <= i < orders.len() ==> !is_working_buy(#[trigger] orders[i], ticker, side),
        first_working(orders, ticker, side) matches Some(order) ==> orders.contains(order) && is_working_buy(
            order,
            ticker,
            side,
        ),
    decreases orders.len(),
{
    if orders.len() > 0 {
        let rest = orders.skip(1);
        lemma_first_working(rest, ticker, side);
        assert(forall|i: int| 0 < i < orders.len() ==> #[trigger] orders[i] == rest[i - 1]);
        if is_working_buy(orders[0], ticker, side) {
            assert(orders.contains(orders[0]));
        } else if let Some(order) = first_working(rest, ticker, side) {
            let k = choose|k: int| 0 <= k < rest.len() && rest[k] == order;
            assert(orders[k + 1] == order);
        } else {
            assert forall|i: int| 0 <= i < orders.len() implies !is_working_buy(#[trigger] orders[i], ticker, side) by {
                if i > 0 {
                    assert(rest[i - 1] == orders[i]);
                }
            }
        }
    }
}

/// Where `after` has a working buy at all, it is one at `price`.
proof fn lemma_side_is_reached(
    orders: Seq<OrderModel>,
    ticker: Seq<char>,
    side: Seq<char>,
    price: int,
    action: ActionModel,
    reply: ReplyModel,
    now_ms: int,
)
    requires
        distinct_ids(orders),
        lone(orders, ticker, side),
        side == "yes"@ || side == "no"@,
        match first_working(orders, ticker, side) {
            Some(mine) => match action {
                ActionModel::CancelOrder { order_id } => order_id == mine.order_id && reply is Done,
                ActionModel::AmendBid { order_id, new_price_cents, .. } => order_id == mine.order_id && new_price_cents
                    == price && side == "yes"@ && takes_new_id(reply, orders),
                ActionModel::AmendAsk { order_id, new_price_cents, .. } => order_id == mine.order_id && new_price_cents
                    == price && side == "no"@ && takes_new_id(reply, orders),
                _ => false,
            },
            None => match action {
                ActionModel::PlaceBid { price_cents, .. } => price_cents == price && side == "yes"@ && takes_new_id(reply, orders),
                ActionModel::PlaceAsk { price_cents, .. } => 100 - price_cents == price && side == "no"@ && takes_new_id(reply, orders),
                _ => false,
            },
        },
    ensures
        match first_working(settled(orders, action, reply, ticker, now_ms), ticker, side) {
            Some(order) => !(action is CancelOrder) && order.price_cents == price,
            None => action is CancelOrder,
        },
{
    let after = settled(orders, action, reply, ticker, now_ms);
    lemma_first_working(orders, ticker, side);
    lemma_first_working(after, ticker, side);
    if let Some(mine) = first_working(orders, ticker, side) {
        let id = mine.order_id;
        let at = choose|at: int| 0 <= at < orders.len() && orders[at] == mine;
        lemma_place_of(orders, id);
        lemma_unique_place(orders, id, at);
        assert forall|i: int| 0 <= i < orders.len() && i != at implies !is_working_buy(#[trigger] orders[i], ticker, side) by {
            if i < at {
                assert(is_working_buy(orders[at], ticker, side));
            } else {
                assert(is_working_buy(orders[at], ticker, side));
            }
        }
        if action is CancelOrder {
            assert(after =~= orders.update(at, OrderModel { status: OrderStatus::PendingCancel, ..orders[at] }));
        } else {
            let less = removed(orders, id);
            assert(less =~= orders.remove(at));
            assert forall|i: int| 0 <= i < less.len() implies !is_working_buy(#[trigger] less[i], ticker, side) by {
                assert(less[i] == if i < at { orders[i] } else { orders[i + 1] });
            }
            let new_id = reply->Order_order_id;
            if tracks(less, new_id) {
                let k = choose|k: int| 0 <= k < less.len() && (#[trigger] less[k]).order_id == new_id;
                assert(less[k] == if k < at { orders[k] } else { orders[k + 1] });
                assert(tracks(orders, new_id));
            }
            assert(after[less.len() as int].price_cents == price);
            assert(is_working_buy(after[less.len() as int], ticker, side));
            assert forall|i: int| 0 <= i < after.len() && is_working_buy(#[trigger] after[i], ticker, side) implies after[i].price_cents
                == price by {
                if i < less.len() {
                    assert(after[i] == less[i]);
                }
            }
        }
    } else {
        assert(is_working_buy(after[orders.len() as int], ticker, side));
        assert forall|i: int| 0 <= i < after.len() && is_working_buy(#[trigger] after[i], ticker, side) implies after[i].price_cents
                == price by {
            if i < orders.len() {
                assert(after[i] == orders[i]);
            }
        }
    }
}

proof fn lemma_unique_place(orders: Seq<OrderModel>, id: Seq<char>, at: int)
    requires
        distinct_ids(orders),
        0 <= at < orders.len(),
        orders[at].order_id == id,
    ensures
        place_of(orders, id) == at,
        tracks(orders, id),
{
    lemma_place_of(orders, id);
    let place = place_of(orders, id);
    if place < at {
        assert(orders[place].order_id != orders[at].order_id);
    }
}

pub proof fn lemma_working_ids(orders: Seq<OrderModel>, ticker: Seq<char>)
    ensures
        forall|i: int|
            0 <= i < orders.len() && (#[trigger] orders[i]).ticker == ticker && orders[i].status.working() ==> working_ids(
                orders,
                ticker,
            ).contains(orders[i].order_id),
        forall|k: int|
            0 <= k < working_ids(orders, ticker).len() ==> exists|i: int|
                0 <= i < orders.len() && (#[trigger] orders[i]).order_id == #[trigger] working_ids(orders, ticker)[k]
                    && orders[i].ticker == ticker && orders[i].status.working(),
    decreases orders.len(),
{
    if orders.len() > 0 {
        let front = orders.drop_last();
        let end = orders.len() - 1;
        let ids = working_ids(orders, ticker);
        let some = working_ids(front, ticker);
        lemma_working_ids(front, ticker);
        assert forall|i: int|
            0 <= i < orders.len() && (#[trigger] orders[i]).ticker == ticker && orders[i].status.working() implies ids.contains(
            orders[i].order_id,
        ) by {
            if i < end {
                assert(front[i] == orders[i]);
                assert(some.contains(front[i].order_id));
                let k = choose|k: int| 0 <= k < some.len() && some[k] == front[i].order_id;
                assert(ids[k] == some[k]);
            } else {
                assert(ids[ids.len() - 1] == orders[i].order_id);
            }
        }
        assert forall|k: int| 0 <= k < ids.len() implies exists|i: int|
            0 <= i < orders.len() && (#[trigger] orders[i]).order_id == #[trigger] ids[k] && orders[i].ticker == ticker
                && orders[i].status.working() by {
            if k < some.len() {
                assert(some[k] == ids[k]);
                let i = choose|i: int|
                    0 <= i < front.len() && (#[trigger] front[i]).order_id == some[k] && front[i].ticker == ticker
                        && front[i].status.working();
                assert(orders[i] == front[i]);
            } else {
                assert(orders[end].order_id == ids[k]);
            }
        }
    }
}

proof fn lemma_working_ids_distinct(orders: Seq<OrderModel>, ticker: Seq<char>)
    requires
        distinct_ids(orders),
    ensures
        working_ids(orders, ticker).no_duplicates(),
    decreases orders.len(),
{
    if orders.len() > 0 {
        let front = orders.drop_last();
        let end = orders.len() - 1;
        let some = working_ids(front, ticker);
        assert forall|i: int, j: int| 0 <= i < j < front.len() implies (#[trigger] front[i]).order_id != (
        #[trigger] front[j]).order_id by {
            assert(front[i] == orders[i] && front[j] == orders[j]);
        }
        lemma_working_ids_distinct(front, ticker);
        lemma_working_ids(front, ticker);
        assert forall|k: int| 0 <= k < some.len() implies #[trigger] some[k] != orders[end].order_id by {
            let i = choose|i: int|
                0 <= i < front.len() && (#[trigger] front[i]).order_id == some[k] && front[i].ticker == ticker
                    && front[i].status.working();
            assert(orders[i].order_id != orders[end].order_id);
        }
    }
}

proof fn lemma_none_working(orders: Seq<OrderModel>, ticker: Seq<char>)
    requires
        forall|i: int| 0 <= i < orders.len() ==> !((#[trigger] orders[i]).ticker == ticker && orders[i].status.working()),
    ensures
        working_ids(orders, ticker) == Seq::<Seq<char>>::empty(),
        first_working(orders, ticker, "yes"@) is None,
        first_working(orders, ticker, "no"@) is None,
{
    lemma_working_ids(orders, ticker);
    let ids = working_ids(orders, ticker);
    if ids.len() > 0 {
        let id = ids[0];
        let i = choose|i: int|
            0 <= i < orders.len() && (#[trigger] orders[i]).order_id == id && orders[i].ticker == ticker
                && orders[i].status.working();
        assert(!(orders[i].ticker == ticker && orders[i].status.working()));
    }
    lemma_first_working(orders, ticker, "yes"@);
    lemma_first_working(orders, ticker, "no"@);
}

/// What is left after removals: orders of before, none of them under a removed id, and all that
/// are not.
proof fn lemma_all_removed(orders: Seq<OrderModel>, ids: Seq<Seq<char>>)
    requires
        distinct_ids(orders),
    ensures
        distinct_ids(all_removed(orders, ids)),
        forall|k: int|
            0 <= k < all_removed(orders, ids).len() ==> orders.contains(#[trigger] all_removed(orders, ids)[k]) && !ids.contains(
                all_removed(orders, ids)[k].order_id,
            ),
        forall|i: int|
            0 <= i < orders.len() && !ids.contains((#[trigger] orders[i]).order_id) ==> all_removed(orders, ids).contains(
                orders[i],
            ),
    decreases ids.len(),
{
    if ids.len() == 0 {
        assert(forall|k: int| 0 <= k < orders.len() ==> orders.contains(#[trigger] orders[k]));
    } else {
        let front = ids.drop_last();
        let id = ids.last();
        let between = all_removed(orders, front);
        let after = all_removed(orders, ids);
        lemma_all_removed(orders, front);
        lemma_place_of(between, id);
        let at = place_of(between, id);
        if tracks(between, id) {
            assert(after == between.remove(at));
            assert forall|i: int, j: int| 0 <= i < j < after.len() implies (#[trigger] after[i]).order_id != (
            #[trigger] after[j]).order_id by {
                assert(after[i] == between[if i < at { i } else { i + 1 }]);
                assert(after[j] == between[if j < at { j } else { j + 1 }]);
            }
        }
        assert forall|k: int| 0 <= k < after.len() implies orders.contains(#[trigger] after[k]) && !ids.contains(
            after[k].order_id,
        ) by {
            let b = if tracks(between, id) && k >= at { k + 1 } else { k };
            assert(after[k] == between[b]);
            assert(orders.contains(between[b]) && !front.contains(between[b].order_id));
            if between[b].order_id == id {
                assert(tracks(between, id));
                if b < at {
                    assert(between[b].order_id != between[at].order_id);
                } else {
                    assert(between[at].order_id != between[b].order_id);
                }
            }
            if ids.contains(after[k].order_id) {
                let n = choose|n: int| 0 <= n < ids.len() && ids[n] == after[k].order_id;
                if n < front.len() {
                    assert(front[n] == ids[n]);
                }
            }
        }
        assert forall|i: int| 0 <= i < orders.len() && !ids.contains((#[trigger] orders[i]).order_id) implies after.contains(
            orders[i],
        ) by {
            if front.contains(orders[i].order_id) {
                let n = choose|n: int| 0 <= n < front.len() && front[n] == orders[i].order_id;
                assert(ids[n] == front[n]);
            }
            assert(between.contains(orders[i]));
            let b = choose|b: int| 0 <= b < between.len() && between[b] == orders[i];
            if tracks(between, id) {
                assert(ids[ids.len() - 1] == id);
                assert(between[at].order_id == id);
                if b < at {
                    assert(after[b] == between[b]);
                } else {
                    assert(b != at);
                    assert(after[b - 1] == between[b]);
                }
            }
        }
    }
}

} // verus!
