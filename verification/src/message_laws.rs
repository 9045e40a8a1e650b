//! What each message changes in a session, and what the session decides.

use crate::clock::{secs_between, Moment};
use crate::execution::{
    collected, distinct_ids, first_working, lemma_place_of, place_of, removed, tracks, with_fill, with_status, working_ids,
    OrderModel, OrderStatus,
};
use crate::market_data::{OrderBook, Side, TrendDirection};
use crate::order_laws::{
    law_each_side_is_reconciled, law_removing_one_order, law_status_of_one_order, right_for_ask, right_for_bid,
};
use crate::quote_laws::{buys, free_to_quote, law_own_order_is_the_first, law_quote_is_in_range};
use crate::risk::{HaltReason, RiskManager};
use crate::session::{DecisionView, Event, Outcome, Reaction, Session, TrendStep};
use crate::session_laws::lemma_working_ids;
use crate::strategy::{ActionModel, Strategy};
use crate::ws::MessageView;
use vstd::prelude::*;

verus! {

/// Whether `sum` is twice the midprice of `book`: the sum of the best bid and the best offer, where
/// there are both and the offer is the higher.
pub open spec fn is_twice_the_mid(sum: Option<i64>, book: OrderBook) -> bool {
    let bid = book.yes_bids.best_bid;
    let no_bid = book.no_bids.best_bid;
    if bid > 0 && no_bid > 0 && bid + no_bid < 100 {
        sum matches Some(s) && s == bid + (100 - no_bid)
    } else {
        sum is None
    }
}

/// Whether `after` are the limits `before` once the connection is known, all else unchanged.
pub open spec fn knows_connection(after: RiskManager, before: RiskManager, signaled: bool) -> bool {
    after == (RiskManager {
        ws_connected: if signaled {
            before.ws_connected
        } else {
            true
        },
        ..before
    })
}

/// A snapshot of the session's market replaces the book and puts it in use, at the time at which it
/// came; the trend starts anew from its midprice. Orders, position and profit stay as they are.
pub proof fn law_snapshot_replaces_the_book(
    before: Session,
    yes_levels: Seq<(i64, i64)>,
    no_levels: Seq<(i64, i64)>,
    seq: u64,
    now_ms: u64,
    after: Session,
    outcome: Outcome,
)
    requires
        after.heard(
            before,
            MessageView::OrderbookSnapshot { market_ticker: before.ticker@, yes_levels, no_levels, seq },
            now_ms,
            outcome,
        ),
    ensures
        after.book.yes_bids.holds(yes_levels),
        after.book.no_bids.holds(no_levels),
        after.book.seq == seq,
        after.book.initialized,
        after.tracker == before.tracker,
        after.last_desired == before.last_desired,
        after.ws_connected_signaled,
        knows_connection(
            after.risk,
            (RiskManager { last_book_ms: Some(now_ms), ..before.risk }),
            before.ws_connected_signaled,
        ),
        outcome.trend matches TrendStep::Restart { mid_sum } && is_twice_the_mid(mid_sum, after.book),
        outcome.book_changed && !outcome.got_fill && !outcome.cancel_all && !outcome.rotate,
{
}

/// An update that follows on the last one changes its own side of the book and no more, at the time
/// at which it came, and tells the trend the new midprice where there is one.
pub proof fn law_update_changes_its_side(
    before: Session,
    side: Side,
    price: i64,
    delta: i64,
    now_ms: u64,
    after: Session,
    outcome: Outcome,
    seq: u64,
)
    requires
        after.heard(
            before,
            MessageView::OrderbookDelta { market_ticker: before.ticker@, side, price, delta, seq },
            now_ms,
            outcome,
        ),
        seq == before.book.seq + 1,
    ensures
        side == Side::Yes ==> after.book.yes_bids.changed_from(before.book.yes_bids, price as int, delta as int)
            && after.book.no_bids == before.book.no_bids,
        side == Side::No ==> after.book.no_bids.changed_from(before.book.no_bids, price as int, delta as int)
            && after.book.yes_bids == before.book.yes_bids,
        after.book.seq == seq,
        after.book.initialized == before.book.initialized,
        after.tracker == before.tracker,
        knows_connection(
            after.risk,
            (RiskManager { last_book_ms: Some(now_ms), ..before.risk }),
            before.ws_connected_signaled,
        ),
        match outcome.trend {
            TrendStep::Update { mid_sum } => is_twice_the_mid(Some(mid_sum), after.book),
            TrendStep::Keep => is_twice_the_mid(None, after.book),
            TrendStep::Restart { .. } => false,
        },
        outcome.book_changed && !outcome.got_fill && !outcome.cancel_all && !outcome.rotate,
{
}

/// An update that does not follow on the last one leaves the book, the orders and the profit as they
/// are, halts trading for that reason and ends the session.
pub proof fn law_gap_halts(
    before: Session,
    side: Side,
    price: i64,
    delta: i64,
    now_ms: u64,
    after: Session,
    outcome: Outcome,
    seq: u64,
)
    requires
        after.heard(
            before,
            MessageView::OrderbookDelta { market_ticker: before.ticker@, side, price, delta, seq },
            now_ms,
            outcome,
        ),
        seq != before.book.seq + 1,
    ensures
        after.book == before.book,
        after.tracker == before.tracker,
        knows_connection(
            after.risk,
            (RiskManager { halted: Some(HaltReason::SequenceGap), ..before.risk }),
            before.ws_connected_signaled,
        ),
        outcome.cancel_all && outcome.rotate && !outcome.book_changed && !outcome.got_fill,
        outcome.trend == TrendStep::Keep,
{
}

/// A fill sets the position and pairs its contracts, takes its count off its order, and is news; the
/// book stays as it is.
pub proof fn law_fill_is_taken_in(
    before: Session,
    trade_id: Seq<char>,
    order_id: Seq<char>,
    market_ticker: Seq<char>,
    side: Seq<char>,
    yes_price: i64,
    count: i64,
    action: Seq<char>,
    is_taker: bool,
    post_position: i64,
    now_ms: u64,
    after: Session,
    outcome: Outcome,
)
    requires
        after.heard(
            before,
            MessageView::Fill {
                trade_id,
                order_id,
                market_ticker,
                side,
                yes_price,
                count,
                action,
                is_taker,
                post_position,
            },
            now_ms,
            outcome,
        ),
    ensures
        after.book == before.book,
        after.tracker@ == with_fill(before.tracker@, order_id, count as int),
        exists|connected: RiskManager| #[trigger]
            knows_connection(connected, before.risk, before.ws_connected_signaled) && after.risk.filled_from(
                connected,
                side,
                action,
                yes_price as int,
                count as int,
                post_position,
            ),
        after.risk.inventory == post_position,
        outcome.got_fill && !outcome.book_changed && !outcome.cancel_all && !outcome.rotate,
        outcome.trend == TrendStep::Keep,
{
    assert(knows_connection(before.connected_risk(), before.risk, before.ws_connected_signaled));
}

/// A report on an order: one that rests is marked so, one that is canceled or executed is dropped,
/// any other word changes nothing. No other order changes, nor the book, the position or the profit.
pub proof fn law_order_report_is_taken_in(
    before: Session,
    order_id: Seq<char>,
    ticker: Seq<char>,
    status: Seq<char>,
    side: Seq<char>,
    remaining_count_fp: Seq<char>,
    fill_count_fp: Seq<char>,
    now_ms: u64,
    after: Session,
    outcome: Outcome,
)
    requires
        before.wf(),
        after.heard(
            before,
            MessageView::UserOrder { order_id, ticker, status, side, remaining_count_fp, fill_count_fp },
            now_ms,
            outcome,
        ),
    ensures
        after.book == before.book,
        knows_connection(after.risk, before.risk, before.ws_connected_signaled),
        status == "resting"@ ==> after.tracker@ == with_status(before.tracker@, order_id, OrderStatus::Resting),
        status == "canceled"@ || status == "executed"@ ==> after.tracker@ == removed(before.tracker@, order_id),
        status != "resting"@ && status != "canceled"@ && status != "executed"@ ==> after.tracker@ == before.tracker@,
        !outcome.got_fill && !outcome.book_changed && !outcome.cancel_all && !outcome.rotate,
        outcome.trend == TrendStep::Keep,
{
    reveal_strlit("resting");
    reveal_strlit("canceled");
    reveal_strlit("executed");
    assert("resting"@.len() == 7 && "canceled"@.len() == 8 && "executed"@.len() == 8);
    assert("canceled"@[0] == 'c' && "executed"@[0] == 'e');
    lemma_removed_in_any_status(before.tracker@, order_id, OrderStatus::Canceled);
    lemma_removed_in_any_status(before.tracker@, order_id, OrderStatus::Executed);
}

proof fn lemma_removed_in_any_status(orders: Seq<OrderModel>, id: Seq<char>, status: OrderStatus)
    requires
        distinct_ids(orders),
    ensures
        removed(with_status(orders, id, status), id) == removed(orders, id),
{
    let marked = with_status(orders, id, status);
    law_status_of_one_order(orders, id, status);
    assert forall|i: int, j: int| 0 <= i < j < marked.len() implies (#[trigger] marked[i]).order_id != (
    #[trigger] marked[j]).order_id by {
        assert(marked[i].order_id == orders[i].order_id && marked[j].order_id == orders[j].order_id);
    }
    law_removing_one_order(orders, id);
    law_removing_one_order(marked, id);
    lemma_place_of(orders, id);
    if tracks(orders, id) {
        let k = place_of(orders, id);
        assert(marked[k].order_id == id);
        assert(orders[k].order_id == id);
        assert forall|i: int| 0 <= i < orders.len() && i != k implies #[trigger] orders[i] == marked[i] by {
            assert(i < k ==> orders[i].order_id != orders[k].order_id);
            assert(k < i ==> orders[k].order_id != orders[i].order_id);
        }
        assert(orders.take(k) =~= marked.take(k));
        assert(orders.skip(k + 1) =~= marked.skip(k + 1));
    } else {
        assert forall|i: int| 0 <= i < orders.len() implies #[trigger] orders[i] == marked[i] by {
            assert(orders[i].order_id != id);
        }
        assert(marked =~= orders);
    }
}

/// An error that begins with the words of a disconnect puts the book out of use, notes that the
/// connection is gone, and takes the orders out of the market; the trend starts anew. The book's
/// contents, the orders, the position and the profit stay as they are.
pub proof fn law_disconnect_is_taken_in(
    before: Session,
    code: u64,
    rest: Seq<char>,
    now_ms: u64,
    after: Session,
    outcome: Outcome,
)
    requires
        after.heard(before, (MessageView::Error { code, message: "WS disconnect"@ + rest }), now_ms, outcome),
    ensures
        after.book == (OrderBook { initialized: false, ..before.book }),
        after.risk == (RiskManager { ws_connected: false, ..before.risk }),
        after.tracker == before.tracker,
        !after.ws_connected_signaled,
        outcome.trend == (TrendStep::Restart { mid_sum: None }),
        outcome.cancel_all && !outcome.rotate && !outcome.book_changed && !outcome.got_fill,
{
    let message = "WS disconnect"@ + rest;
    assert("WS disconnect"@ =~= message.subrange(0, "WS disconnect"@.len() as int));
    assert("WS disconnect"@.is_prefix_of(message));
}

/// Whatever else comes changes nothing but that the connection is known: an error that does not
/// begin with the words of a disconnect, prices and trades of the market, a confirmed subscription, a
/// text of no known kind.
pub proof fn law_other_messages_change_nothing(
    before: Session,
    msg: MessageView,
    now_ms: u64,
    after: Session,
    outcome: Outcome,
)
    requires
        after.heard(before, msg, now_ms, outcome),
        match msg {
            MessageView::Error { message, .. } => !("WS disconnect"@.len() <= message.len() && message.take(
                "WS disconnect"@.len() as int,
            ) == "WS disconnect"@),
            MessageView::Ticker { .. } => true,
            MessageView::Trade { .. } => true,
            MessageView::Subscribed { .. } => true,
            MessageView::Unknown(_) => true,
            _ => false,
        },
    ensures
        after.book == before.book,
        after.tracker == before.tracker,
        after.ws_connected_signaled,
        knows_connection(after.risk, before.risk, before.ws_connected_signaled),
        !outcome.got_fill && !outcome.book_changed && !outcome.cancel_all && !outcome.rotate,
        outcome.trend == TrendStep::Keep,
{
    if let MessageView::Error { message, .. } = msg {
        if "WS disconnect"@.is_prefix_of(message) {
            assert(message.take("WS disconnect"@.len() as int) =~= "WS disconnect"@);
        }
    }
}

/// Whether one of `orders` is in the market `ticker` or on its way there.
pub open spec fn some_working(orders: Seq<OrderModel>, ticker: Seq<char>) -> bool {
    exists|i: int|
        0 <= i < orders.len() && (#[trigger] orders[i]).ticker == ticker && (orders[i].status == OrderStatus::PendingNew
            || orders[i].status == OrderStatus::Resting || orders[i].status == OrderStatus::PendingAmend)
}

/// The decision: nothing before the book is known; all orders go while something keeps the market
/// maker from quoting. Else, after news, or where the wanted quote is not the last one, the orders are
/// brought to the wanted quote, whatever the last one was; without news and with the same quote there
/// is nothing to do.
pub proof fn law_decision(
    before: Session,
    after: Session,
    news: bool,
    trend: TrendDirection,
    now_ms: int,
    decision: DecisionView,
)
    requires
        before.wf(),
        after.decided(before, news, trend, now_ms, decision),
    ensures
        ({
            let quote = before.strategy.desired_quote(
                before.book,
                before.tracker@,
                before.ticker@,
                before.risk,
                trend,
            );
            let actions = Strategy::actions_for(quote.bid, quote.ask, before.tracker@, before.ticker@);
            let same = quote.bid == before.last_desired.bid_price && quote.ask == before.last_desired.ask_price;
            let due = now_ms - before.last_gc_ms > 60000;
            if !before.book.initialized {
                decision == DecisionView::Wait && after == before
            } else if !free_to_quote(before.risk, before.book) {
                &&& decision == (if some_working(before.tracker@, before.ticker@) {
                    DecisionView::CancelAll
                } else {
                    DecisionView::Wait
                })
                &&& after.last_desired.bid_price == 0 && after.last_desired.ask_price == 0
                &&& after.tracker == before.tracker
            } else if !news && same {
                decision == DecisionView::Wait && after == before
            } else {
                &&& actions.len() > 0 ==> decision == DecisionView::Execute(actions)
                &&& actions.len() == 0 ==> decision == DecisionView::Wait
                &&& after.last_desired.bid_price == quote.bid && after.last_desired.ask_price == quote.ask
                &&& actions.len() > 0 || !due ==> after.tracker == before.tracker && after.last_gc_ms == before.last_gc_ms
                &&& actions.len() == 0 && due ==> after.tracker@ == collected(before.tracker@, now_ms, 300000)
                    && after.last_gc_ms == now_ms
            }
        }),
{
    law_quote_is_in_range(before.strategy, before.book, before.tracker@, before.ticker@, before.risk, trend);
    let orders = before.tracker@;
    let ticker = before.ticker@;
    let ids = working_ids(orders, ticker);
    lemma_working_ids(orders, ticker);
    if some_working(orders, ticker) {
        let i = choose|i: int|
            0 <= i < orders.len() && (#[trigger] orders[i]).ticker == ticker && (orders[i].status
                == OrderStatus::PendingNew || orders[i].status == OrderStatus::Resting || orders[i].status
                == OrderStatus::PendingAmend);
        assert(ids.contains(orders[i].order_id));
    }
    if ids.len() > 0 {
        let id = ids[0];
        let i = choose|i: int|
            0 <= i < orders.len() && (#[trigger] orders[i]).order_id == id && orders[i].ticker == ticker
                && orders[i].status.working();
        assert(orders[i].ticker == ticker);
    }
}

/// After news, a side that is wanted and not in the market is placed, and one that is there and not
/// wanted is cancelled, whatever was wanted before.
pub proof fn law_news_brings_the_orders_to_the_quote(
    before: Session,
    after: Session,
    trend: TrendDirection,
    now_ms: int,
    decision: DecisionView,
)
    requires
        before.wf(),
        after.decided(before, true, trend, now_ms, decision),
        free_to_quote(before.risk, before.book),
    ensures
        ({
            let quote = before.strategy.desired_quote(
                before.book,
                before.tracker@,
                before.ticker@,
                before.risk,
                trend,
            );
            let orders = before.tracker@;
            let no_bid = forall|i: int| 0 <= i < orders.len() ==> !buys(#[trigger] orders[i], before.ticker@, "yes"@);
            let no_ask = forall|i: int| 0 <= i < orders.len() ==> !buys(#[trigger] orders[i], before.ticker@, "no"@);
            &&& quote.bid > 0 && no_bid ==> (decision matches DecisionView::Execute(actions) && actions.contains(
                ActionModel::PlaceBid { price_cents: quote.bid, count: 1 },
            ))
            &&& quote.ask > 0 && no_ask ==> (decision matches DecisionView::Execute(actions) && actions.contains(
                ActionModel::PlaceAsk { price_cents: quote.ask, count: 1 },
            ))
            &&& quote.bid == 0 && !no_bid || quote.ask == 0 && !no_ask ==> decision is Execute
        }),
{
    law_decision(before, after, true, trend, now_ms, decision);
    let quote = before.strategy.desired_quote(before.book, before.tracker@, before.ticker@, before.risk, trend);
    let actions = Strategy::actions_for(quote.bid, quote.ask, before.tracker@, before.ticker@);
    law_each_side_is_reconciled(quote.bid, quote.ask, before.tracker@, before.ticker@);
    law_own_order_is_the_first(before.tracker@, before.ticker@, "yes"@);
    law_own_order_is_the_first(before.tracker@, before.ticker@, "no"@);
    let my_bid = first_working(before.tracker@, before.ticker@, "yes"@);
    let my_ask = first_working(before.tracker@, before.ticker@, "no"@);
    if quote.bid > 0 && my_bid is None {
        assert(right_for_bid(actions[0], quote.bid, my_bid));
        assert(actions[0] == (ActionModel::PlaceBid { price_cents: quote.bid, count: 1 }));
    }
    if quote.ask > 0 && my_ask is None {
        assert(right_for_ask(actions[actions.len() - 1], quote.ask, my_ask));
        assert(actions[actions.len() - 1] == (ActionModel::PlaceAsk { price_cents: quote.ask, count: 1 }));
    }
}

/// A session ends at the start of a round in which the market closes within the set number of whole
/// seconds, when the feed is closed, and at an update of its book that does not follow on the last
/// one; at nothing else. It then gives the profit of the day, which is the one it had.
pub proof fn law_what_ends_a_session(before: Session, event: Event, after: Session, reaction: Reaction)
    requires
        after.stepped(before, event, reaction),
    ensures
        reaction.exit == (if match event {
            Event::Round { close: Some(end), now } => secs_between(end, now)
                <= before.strategy.config.market_rotate_before_close_secs,
            Event::Round { close: None, .. } => false,
            Event::Message { msg, .. } => match msg@ {
                MessageView::OrderbookDelta { market_ticker, seq, .. } => market_ticker == before.ticker@ && seq
                    != before.book.seq + 1,
                _ => false,
            },
            Event::Heard { .. } => false,
            Event::Pause { .. } => false,
            Event::FeedClosed => true,
        } {
            Some(before.risk.daily_pnl_cents)
        } else {
            None
        }),
        reaction.exit is Some ==> reaction.outcome.cancel_all,
        event is Round ==> after == before,
        event is FeedClosed ==> after.risk.halted == Some(HaltReason::WsChannelClosed) && after.book == before.book
            && after.tracker == before.tracker,
        event matches Event::Message { msg, now_ms } ==> after.heard(before, msg@, now_ms, reaction.outcome),
        event matches Event::Heard { news, trend, now_ms } ==> after.decided(
            before,
            news,
            trend,
            now_ms as int,
            reaction.decision@,
        ),
        !(event is Heard) ==> reaction.decision@ == DecisionView::Wait,
{
}

/// Time passing: more than a minute after the last time, the orders that are over and older than five
/// minutes are forgotten; before that nothing changes. Nothing else changes either way.
pub proof fn law_time_passes(before: Session, now_ms: u64, after: Session, reaction: Reaction)
    requires
        after.stepped(before, (Event::Pause { now_ms }), reaction),
    ensures
        now_ms - before.last_gc_ms <= 60000 ==> after == before,
        now_ms - before.last_gc_ms > 60000 ==> after.tracker@ == collected(before.tracker@, now_ms as int, 300000)
            && after.last_gc_ms == now_ms,
        after.book == before.book,
        after.risk == before.risk,
        after.last_desired == before.last_desired,
        !reaction.outcome.cancel_all,
{
}

/// Whole seconds between two moments outside leap seconds: they make up the time between the moments
/// to within a second, never more than it, be it ahead or past.
pub proof fn law_whole_seconds(to: Moment, from: Moment)
    requires
        to.nanos < 1000000000,
        from.nanos < 1000000000,
    ensures
        ({
            let time = (to.secs - from.secs) * 1000000000 + to.nanos - from.nanos;
            let secs = secs_between(to, from);
            &&& time >= 0 ==> secs * 1000000000 <= time < (secs + 1) * 1000000000
            &&& time <= 0 ==> (secs - 1) * 1000000000 < time <= secs * 1000000000
        }),
{
}

} // verus!
