//! One market's trading session: what each message changes, and what to do next.

use crate::clock::{secs_between, secs_until, Moment};
use crate::config::Config;
use crate::execution::{
    all_removed, collected, removed, texts_view, with_fill, with_status, working_ids, OrderModel, OrderStatus, OrderTracker,
};
use crate::market_data::{levels_fit, snapshot_fits, OrderBook, Side, TrendDirection};
use crate::risk::{HaltReason, RiskManager, RiskState};
use crate::strategy::{actions_view, ActionModel, DesiredQuote, Quote, Strategy, StrategyAction};
use crate::text::{begins_with, same_text};
use crate::ws::{MessageView, WsMessage};
use vstd::prelude::*;
use vstd::string::*;

verus! {

/// What a change of the book means for the trend.
#[derive(Debug, Clone, Copy, PartialEq, Eq, Structural)]
pub enum TrendStep {
    Keep,
    /// The midprice is now half of `mid_sum`.
    Update { mid_sum: i64 },
    /// Forget the past; the midprice, where there is one, is half of `mid_sum`.
    Restart { mid_sum: Option<i64> },
}

/// What a message asks for beyond the session's own state.
#[derive(Debug, Clone, Copy, PartialEq, Eq, Structural)]
pub struct Outcome {
    pub trend: TrendStep,
    pub book_changed: bool,
    pub got_fill: bool,
    /// Take all orders out of the market.
    pub cancel_all: bool,
    /// After that, end the session.
    pub rotate: bool,
}

/// What comes to a session.
#[derive(Debug)]
pub enum Event {
    /// A round begins, in a market that closes at `close`.
    Round { close: Option<Moment>, now: Moment },
    Message { msg: WsMessage, now_ms: u64 },
    /// The messages at hand are taken in; `news` is what `brought_news` says of their outcomes.
    Heard { news: bool, trend: TrendDirection, now_ms: u64 },
    /// No message has come for a while, or orders have been sent.
    Pause { now_ms: u64 },
    /// No message will come any more.
    FeedClosed,
}

/// What an event asks for.
#[derive(Debug)]
pub struct Reaction {
    pub outcome: Outcome,
    pub decision: Decision,
    /// The end of the session, with the profit of the day, once all orders are out of the market.
    pub exit: Option<i64>,
}

/// What to do once the messages at hand are taken in.
#[derive(Debug)]
pub enum Decision {
    Wait,
    CancelAll,
    Execute(Vec<StrategyAction>),
}

/// What a [`Decision`] says.
#[verifier::ext_equal]
pub enum DecisionView {
    Wait,
    CancelAll,
    Execute(Seq<ActionModel>),
}

impl View for Decision {
    type V = DecisionView;

    open spec fn view(&self) -> DecisionView {
        match self {
            Decision::Wait => DecisionView::Wait,
            Decision::CancelAll => DecisionView::CancelAll,
            Decision::Execute(actions) => DecisionView::Execute(actions_view(actions@)),
        }
    }
}

pub struct Session {
    pub strategy: Strategy,
    pub ticker: String,
    pub book: OrderBook,
    pub risk: RiskManager,
    pub tracker: OrderTracker,
    /// Whether the connection has been reported since it last broke.
    pub ws_connected_signaled: bool,
    pub last_desired: DesiredQuote,
    pub last_gc_ms: u64,
}

pub const GC_INTERVAL_MS: u64 = 60000;

pub const ORDER_MAX_AGE_MS: u64 = 300000;

/// The status that the exchange's word for it stands for.
pub open spec fn status_named(name: Seq<char>) -> Option<OrderStatus> {
    if name == "resting"@ {
        Some(OrderStatus::Resting)
    } else if name == "canceled"@ {
        Some(OrderStatus::Canceled)
    } else if name == "executed"@ {
        Some(OrderStatus::Executed)
    } else {
        None
    }
}

/// The orders after the exchange has reported a status of one: an order that is over is dropped.
pub open spec fn with_report(orders: Seq<OrderModel>, id: Seq<char>, status: Seq<char>) -> Seq<OrderModel> {
    match status_named(status) {
        Some(OrderStatus::Resting) => with_status(orders, id, OrderStatus::Resting),
        Some(over) => removed(with_status(orders, id, over), id),
        None => orders,
    }
}

/// Whether an error message reports the end of the connection.
pub open spec fn is_disconnect(message: Seq<char>) -> bool {
    "WS disconnect"@.is_prefix_of(message)
}

/// Twice the midprice, where the book is quoted on both sides and not crossed.
pub open spec fn mid_sum(book: OrderBook) -> Option<int> {
    if book.quoted() {
        Some(book.yes_bids.best_bid + book.yes_ask())
    } else {
        None
    }
}

/// Nothing to do.
pub open spec fn quiet() -> Outcome {
    Outcome { trend: TrendStep::Keep, book_changed: false, got_fill: false, cancel_all: false, rotate: false }
}

/// Whether an outcome tells the midprice of `book`, and no more.
pub open spec fn tells_mid(trend: TrendStep, book: OrderBook, restart: bool) -> bool {
    match (mid_sum(book), restart) {
        (Some(sum), true) => trend matches TrendStep::Restart { mid_sum: Some(s) } && s == sum,
        (None, true) => trend == (TrendStep::Restart { mid_sum: None }),
        (Some(sum), false) => trend matches TrendStep::Update { mid_sum: s } && s == sum,
        (None, false) => trend == TrendStep::Keep,
    }
}

/// Whether one of `outcomes`, those of the messages at hand, changed the book or reported a fill.
pub fn brought_news(outcomes: &Vec<Outcome>) -> (r: bool)
    ensures
        r == (exists|i: int|
            0 <= i < outcomes@.len() && ((#[trigger] outcomes@[i]).book_changed || outcomes@[i].got_fill)),
{
    let mut i: usize = 0;
    while i < outcomes.len()
        invariant
            i <= outcomes@.len(),
            forall|k: int| 0 <= k < i ==> !(#[trigger] outcomes@[k]).book_changed && !outcomes@[k].got_fill,
        decreases outcomes.len() - i,
    {
        if outcomes[i].book_changed || outcomes[i].got_fill {
            return true;
        }
        i = i + 1;
    }
    false
}

fn mid_of(book: &OrderBook) -> (r: Option<i64>)
    ensures
        (match r {
            Some(sum) => Some(sum as int),
            None => None,
        }) == mid_sum(*book),
{
    match book.two_sided() {
        Some(top) => Some(top.bid + top.ask),
        None => None,
    }
}

impl Session {
    pub open spec fn wf(&self) -> bool {
        self.book.wf() && self.risk.wf() && self.tracker.wf()
    }

    /// The limits once the connection is known to be there.
    pub open spec fn connected_risk(&self) -> RiskManager {
        if self.ws_connected_signaled {
            self.risk
        } else {
            RiskManager { ws_connected: true, ..self.risk }
        }
    }

    /// Whether a message can be taken in within the machine's integers.
    pub open spec fn message_fits(&self, msg: MessageView) -> bool {
        match msg {
            MessageView::OrderbookSnapshot { market_ticker, yes_levels, no_levels, .. } => market_ticker == self.ticker@
                ==> levels_fit(yes_levels) && levels_fit(no_levels),
            MessageView::OrderbookDelta { market_ticker, side, price, delta, seq } => market_ticker == self.ticker@
                ==> self.book.delta_fits(side, price as int, delta as int, seq),
            MessageView::Fill { order_id, count, .. } => self.tracker.fill_fits(order_id, count as int),
            _ => true,
        }
    }

    /// Whether the session is `before` in all but the book, the limits, the orders and the
    /// connection.
    pub open spec fn keeps_course(&self, before: Session) -> bool {
        &&& self.strategy == before.strategy
        &&& self.ticker == before.ticker
        &&& self.last_desired == before.last_desired
        &&& self.last_gc_ms == before.last_gc_ms
    }

    /// Whether taking in `msg` at `now_ms` leads from `before` to this session, with `outcome`.
    pub open spec fn heard(&self, before: Session, msg: MessageView, now_ms: u64, outcome: Outcome) -> bool {
        &&& self.wf()
        &&& self.keeps_course(before)
        &&& match msg {
            MessageView::OrderbookSnapshot { market_ticker, yes_levels, no_levels, seq } if market_ticker
                == before.ticker@ => {
                &&& self.book.yes_bids.holds(yes_levels)
                &&& self.book.no_bids.holds(no_levels)
                &&& self.book.seq == seq
                &&& self.book.initialized
                &&& self.risk == (RiskManager { last_book_ms: Some(now_ms), ..before.connected_risk() })
                &&& self.tracker == before.tracker
                &&& self.ws_connected_signaled
                &&& tells_mid(outcome.trend, self.book, true)
                &&& outcome == (Outcome { trend: outcome.trend, book_changed: true, ..quiet() })
            },
            MessageView::OrderbookDelta { market_ticker, side, price, delta, seq } if market_ticker == before.ticker@ => {
                &&& self.tracker == before.tracker
                &&& self.ws_connected_signaled
                &&& if seq == before.book.seq + 1 {
                    &&& self.book.bids(side).changed_from(before.book.bids(side), price as int, delta as int)
                    &&& side == Side::Yes ==> self.book.no_bids == before.book.no_bids
                    &&& side == Side::No ==> self.book.yes_bids == before.book.yes_bids
                    &&& self.book.seq == seq
                    &&& self.book.initialized == before.book.initialized
                    &&& self.risk == (RiskManager { last_book_ms: Some(now_ms), ..before.connected_risk() })
                    &&& tells_mid(outcome.trend, self.book, false)
                    &&& outcome == (Outcome { trend: outcome.trend, book_changed: true, ..quiet() })
                } else {
                    &&& self.book == before.book
                    &&& self.risk == (RiskManager { halted: Some(HaltReason::SequenceGap), ..before.connected_risk() })
                    &&& outcome == (Outcome { cancel_all: true, rotate: true, ..quiet() })
                }
            },
            MessageView::Fill { order_id, side, yes_price, count, action, post_position, .. } => {
                &&& self.book == before.book
                &&& self.risk.filled_from(before.connected_risk(), side, action, yes_price as int, count as int, post_position)
                &&& self.tracker@ == with_fill(before.tracker@, order_id, count as int)
                &&& self.ws_connected_signaled
                &&& outcome == (Outcome { got_fill: true, ..quiet() })
            },
            MessageView::UserOrder { order_id, status, .. } => {
                &&& self.book == before.book
                &&& self.risk == before.connected_risk()
                &&& self.tracker@ == with_report(before.tracker@, order_id, status)
                &&& self.ws_connected_signaled
                &&& outcome == quiet()
            },
            MessageView::Error { message, .. } if is_disconnect(message) => {
                &&& self.book == (OrderBook { initialized: false, ..before.book })
                &&& self.risk == (RiskManager { ws_connected: false, ..before.risk })
                &&& self.tracker == before.tracker
                &&& !self.ws_connected_signaled
                &&& outcome == (Outcome { trend: TrendStep::Restart { mid_sum: None }, cancel_all: true, ..quiet() })
            },
            _ => {
                &&& self.book == before.book
                &&& self.risk == before.connected_risk()
                &&& self.tracker == before.tracker
                &&& self.ws_connected_signaled
                &&& outcome == quiet()
            },
        }
    }

    /// A session that starts with the day's profit so far and no position.
    pub fn new(config: Config, ticker: String, carry_pnl: i64, now_ms: u64) -> (r: Self)
        ensures
            r.wf(),
            r.strategy.config == config,
            r.ticker == ticker,
            r.book.yes_bids.holds(Seq::empty()),
            r.book.no_bids.holds(Seq::empty()),
            r.book.seq == 0,
            !r.book.initialized,
            r.risk == (RiskManager {
                inventory: 0,
                daily_pnl_cents: carry_pnl,
                pairs_completed: 0,
                open_contracts: 0,
                open_cost_cents: 0,
                max_inventory: config.max_inventory,
                hard_inventory_cap: config.hard_inventory_cap,
                daily_loss_cap_cents: config.daily_loss_cap_cents,
                ws_connected: false,
                last_book_ms: None,
                halted: None,
            }),
            r.tracker@ == Seq::<OrderModel>::empty(),
            !r.ws_connected_signaled,
            r.last_desired == (DesiredQuote { bid_price: 0, ask_price: 0 }),
            r.last_gc_ms == now_ms,
    {
        let mut risk: RiskManager = RiskManager::new(&config);
        risk.carry_daily_pnl(carry_pnl);
        Self {
            strategy: Strategy::new(config),
            ticker,
            book: OrderBook::new(),
            risk,
            tracker: OrderTracker::new(),
            ws_connected_signaled: false,
            last_desired: DesiredQuote { bid_price: 0, ask_price: 0 },
            last_gc_ms: now_ms,
        }
    }

    /// Whether the market closes so soon after `now` that the session ends. A market without a
    /// closing time does not.
    pub open spec fn closing(&self, close: Option<Moment>, now: Moment) -> bool {
        match close {
            Some(end) => secs_between(end, now) <= self.strategy.config.market_rotate_before_close_secs,
            None => false,
        }
    }

    /// Whether the market closes so soon that the session ends.
    pub fn should_rotate(&self, close: Option<Moment>, now: Moment) -> (r: bool)
        ensures
            r == self.closing(close, now),
    {
        match close {
            Some(end) => secs_until(end, now) <= self.strategy.config.market_rotate_before_close_secs as i128,
            None => false,
        }
    }

    /// Whether `on_message` can be called with this message.
    pub fn accepts_message(&self, msg: &WsMessage) -> (r: bool)
        ensures
            r == self.message_fits(msg@),
    {
        match msg {
            WsMessage::OrderbookSnapshot { market_ticker, yes_levels, no_levels, .. } => {
                !same_text(market_ticker.as_str(), self.ticker.as_str()) || (snapshot_fits(yes_levels.as_slice())
                    && snapshot_fits(no_levels.as_slice()))
            },
            WsMessage::OrderbookDelta { market_ticker, side, price, delta, seq } => {
                !same_text(market_ticker.as_str(), self.ticker.as_str()) || self.book.accepts_delta(
                    *side,
                    *price,
                    *delta,
                    *seq,
                )
            },
            WsMessage::Fill { order_id, count, .. } => self.tracker.accepts_fill(order_id.as_str(), *count),
            _ => true,
        }
    }

    /// Takes in a message of the feed.
    pub fn on_message(&mut self, msg: &WsMessage, now_ms: u64) -> (outcome: Outcome)
        requires
            old(self).wf(),
            old(self).message_fits(msg@),
        ensures
            final(self).heard(*old(self), msg@, now_ms, outcome),
    {
        if !self.ws_connected_signaled {
            self.risk.set_ws_connected(true);
            self.ws_connected_signaled = true;
        }
        let mut outcome = Outcome {
            trend: TrendStep::Keep,
            book_changed: false,
            got_fill: false,
            cancel_all: false,
            rotate: false,
        };
        match msg {
            WsMessage::OrderbookSnapshot { market_ticker, yes_levels, no_levels, seq } => {
                if same_text(market_ticker.as_str(), self.ticker.as_str()) {
                    self.book.apply_snapshot(yes_levels.as_slice(), no_levels.as_slice(), *seq);
                    self.risk.book_updated(now_ms);
                    outcome.trend = TrendStep::Restart { mid_sum: mid_of(&self.book) };
                    outcome.book_changed = true;
                }
            },
            WsMessage::OrderbookDelta { market_ticker, side, price, delta, seq } => {
                if same_text(market_ticker.as_str(), self.ticker.as_str()) {
                    if !self.book.apply_delta(*side, *price, *delta, *seq) {
                        self.risk.halt(HaltReason::SequenceGap);
                        outcome.cancel_all = true;
                        outcome.rotate = true;
                    } else {
                        self.risk.book_updated(now_ms);
                        if let Some(sum) = mid_of(&self.book) {
                            outcome.trend = TrendStep::Update { mid_sum: sum };
                        }
                        outcome.book_changed = true;
                    }
                }
            },
            WsMessage::Fill { order_id, side, yes_price, count, action, post_position, .. } => {
                self.risk.record_fill(side.as_str(), action.as_str(), *yes_price, *count, *post_position);
                self.tracker.record_fill(order_id.as_str(), *count);
                outcome.got_fill = true;
            },
            WsMessage::UserOrder { order_id, status, .. } => {
                if same_text(status.as_str(), "resting") {
                    self.tracker.update_status(order_id.as_str(), OrderStatus::Resting);
                } else if same_text(status.as_str(), "canceled") {
                    self.tracker.update_status(order_id.as_str(), OrderStatus::Canceled);
                    self.tracker.remove(order_id.as_str());
                } else if same_text(status.as_str(), "executed") {
                    self.tracker.update_status(order_id.as_str(), OrderStatus::Executed);
                    self.tracker.remove(order_id.as_str());
                }
            },
            WsMessage::Error { message, .. } => {
                if begins_with(message.as_str(), "WS disconnect") {
                    self.ws_connected_signaled = false;
                    self.risk.set_ws_connected(false);
                    self.book.initialized = false;
                    outcome.trend = TrendStep::Restart { mid_sum: None };
                    outcome.cancel_all = true;
                }
            },
            _ => {},
        }
        outcome
    }

    /// Takes over the position that the exchange reports at the start.
    pub fn set_position(&mut self, position: i64)
        ensures
            final(self).risk == (RiskManager { inventory: position, ..old(self).risk }),
            *final(self) == (Session { risk: final(self).risk, ..*old(self) }),
    {
        self.risk.inventory = position;
    }

    /// The feed has ended: no more trading in this session.
    pub fn on_feed_closed(&mut self)
        ensures
            final(self).risk == (RiskManager { halted: Some(HaltReason::WsChannelClosed), ..old(self).risk }),
            *final(self) == (Session { risk: final(self).risk, ..*old(self) }),
    {
        self.risk.halt(HaltReason::WsChannelClosed);
    }

    /// Whether old orders are due to be forgotten.
    pub open spec fn gc_due(&self, now_ms: int) -> bool {
        now_ms - self.last_gc_ms > GC_INTERVAL_MS
    }

    /// Whether this is `before` once old orders, where that is due, are forgotten.
    pub open spec fn tidied(&self, before: Session, now_ms: int) -> bool {
        if before.gc_due(now_ms) {
            &&& self.tracker@ == collected(before.tracker@, now_ms, ORDER_MAX_AGE_MS as int)
            &&& self.last_gc_ms == now_ms
            &&& *self == (Session { tracker: self.tracker, last_gc_ms: self.last_gc_ms, ..before })
        } else {
            *self == before
        }
    }

    /// Forgets old orders, once a minute.
    pub fn tidy(&mut self, now_ms: u64)
        requires
            old(self).wf(),
        ensures
            final(self).wf(),
            final(self).tidied(*old(self), now_ms as int),
    {
        if now_ms > self.last_gc_ms && now_ms - self.last_gc_ms > GC_INTERVAL_MS {
            self.tracker.gc(now_ms, ORDER_MAX_AGE_MS);
            self.last_gc_ms = now_ms;
        }
    }

    /// The orders to take out of the market when all are to go.
    pub fn working_order_ids(&self) -> (ids: Vec<String>)
        ensures
            texts_view(ids@) == working_ids(self.tracker@, self.ticker@),
    {
        self.tracker.resting_order_ids(self.ticker.as_str())
    }

    /// Drops the orders that were taken out of the market.
    pub fn on_all_cancelled(&mut self, ids: &Vec<String>)
        requires
            old(self).wf(),
        ensures
            final(self).wf(),
            final(self).tracker@ == all_removed(old(self).tracker@, texts_view(ids@)),
            *final(self) == (Session { tracker: final(self).tracker, ..*old(self) }),
    {
        self.tracker.remove_all(ids);
    }

    /// Where the session wants to quote.
    pub open spec fn wanted(&self, trend: TrendDirection) -> Quote {
        self.strategy.desired_quote(self.book, self.tracker@, self.ticker@, self.risk, trend)
    }

    /// Whether the next step can be computed within the machine's integers.
    pub open spec fn decision_fits(&self, trend: TrendDirection) -> bool {
        self.strategy.quote_fits(self.book, self.tracker@, self.ticker@, self.risk, trend)
    }

    /// Whether `decide` can be called at this moment.
    pub fn accepts_decision(&self, trend: TrendDirection) -> (r: bool)
        requires
            self.wf(),
        ensures
            r == self.decision_fits(trend),
    {
        self.strategy.accepts_quote(&self.book, &self.tracker, self.ticker.as_str(), &self.risk, trend)
    }

    /// Whether `decision` is the next step from `before`, and leads here. Before the book is known
    /// there is nothing to do. While trading is halted the orders in the market go. Where nothing
    /// has changed and the quote is the last one there is nothing to do; else the orders are
    /// brought to the quote.
    pub open spec fn decided(
        &self,
        before: Session,
        news: bool,
        trend: TrendDirection,
        now_ms: int,
        decision: DecisionView,
    ) -> bool {
        let wanted = before.wanted(trend);
        let last = before.last_desired;
        let actions = Strategy::actions_for(wanted.bid, wanted.ask, before.tracker@, before.ticker@);
        if !before.book.initialized {
            *self == before && decision == DecisionView::Wait
        } else if before.risk.state() == RiskState::Halted {
            &&& *self == (Session { last_desired: DesiredQuote { bid_price: 0, ask_price: 0 }, ..before })
            &&& decision == (if working_ids(before.tracker@, before.ticker@).len() > 0 {
                DecisionView::CancelAll
            } else {
                DecisionView::Wait
            })
        } else if !news && wanted == (Quote { bid: last.bid_price as int, ask: last.ask_price as int }) {
            *self == before && decision == DecisionView::Wait
        } else {
            let noted = Session {
                last_desired: DesiredQuote { bid_price: wanted.bid as i64, ask_price: wanted.ask as i64 },
                ..before
            };
            if actions.len() == 0 {
                self.tidied(noted, now_ms) && decision == DecisionView::Wait
            } else {
                *self == noted && decision == DecisionView::Execute(actions)
            }
        }
    }

    /// Decides what to do once the messages at hand are taken in. `news` tells whether one of them
    /// changed the book or reported a fill.
    pub fn decide(&mut self, news: bool, trend: TrendDirection, now_ms: u64) -> (decision: Decision)
        requires
            old(self).wf(),
            old(self).decision_fits(trend),
        ensures
            final(self).wf(),
            final(self).decided(*old(self), news, trend, now_ms as int, decision@),
    {
        if !self.book.initialized {
            return Decision::Wait;
        }
        if self.risk.tick() == RiskState::Halted {
            let ids: Vec<String> = self.working_order_ids();
            self.last_desired = DesiredQuote { bid_price: 0, ask_price: 0 };
            return if ids.len() > 0 {
                Decision::CancelAll
            } else {
                Decision::Wait
            };
        }
        let desired: DesiredQuote = self.strategy.compute_desired_quotes(
            &self.book,
            &self.tracker,
            self.ticker.as_str(),
            &self.risk,
            trend,
        );
        if !news && desired.bid_price == self.last_desired.bid_price && desired.ask_price
            == self.last_desired.ask_price {
            return Decision::Wait;
        }
        let actions: Vec<StrategyAction> = self.strategy.reconcile(&desired, &self.tracker, self.ticker.as_str());
        self.last_desired = desired;
        if actions.len() == 0 {
            self.tidy(now_ms);
            return Decision::Wait;
        }
        Decision::Execute(actions)
    }

    /// Whether an event ends the session: the market is about to close, the feed is closed, or an
    /// update of the session's own book does not follow on the last one.
    pub open spec fn ends_at(&self, event: Event) -> bool {
        match event {
            Event::Round { close, now } => self.closing(close, now),
            Event::Message { msg, .. } => match msg@ {
                MessageView::OrderbookDelta { market_ticker, seq, .. } => market_ticker == self.ticker@ && seq
                    != self.book.seq + 1,
                _ => false,
            },
            Event::FeedClosed => true,
            _ => false,
        }
    }

    /// Whether an event can be taken in within the machine's integers.
    pub open spec fn event_fits(&self, event: Event) -> bool {
        match event {
            Event::Message { msg, .. } => self.message_fits(msg@),
            Event::Heard { trend, .. } => self.decision_fits(trend),
            _ => true,
        }
    }

    /// Whether `step` can be called with this event.
    pub fn accepts_event(&self, event: &Event) -> (r: bool)
        requires
            self.wf(),
        ensures
            r == self.event_fits(*event),
    {
        match event {
            Event::Message { msg, .. } => self.accepts_message(msg),
            Event::Heard { trend, .. } => self.accepts_decision(*trend),
            _ => true,
        }
    }

    /// Whether `event` leads from `before` to this session, with `reaction`.
    pub open spec fn stepped(&self, before: Session, event: Event, reaction: Reaction) -> bool {
        &&& self.wf()
        &&& reaction.exit == (if reaction.outcome.rotate {
            Some(self.risk.daily_pnl_cents)
        } else {
            None
        })
        &&& match event {
            Event::Round { close, now } => {
                &&& *self == before
                &&& reaction.outcome == (Outcome {
                    cancel_all: before.closing(close, now),
                    rotate: before.closing(close, now),
                    ..quiet()
                })
                &&& reaction.decision@ == DecisionView::Wait
            },
            Event::Message { msg, now_ms } => {
                &&& self.heard(before, msg@, now_ms, reaction.outcome)
                &&& reaction.decision@ == DecisionView::Wait
            },
            Event::Heard { news, trend, now_ms } => {
                &&& self.decided(before, news, trend, now_ms as int, reaction.decision@)
                &&& reaction.outcome == quiet()
            },
            Event::Pause { now_ms } => {
                &&& self.tidied(before, now_ms as int)
                &&& reaction.outcome == quiet()
                &&& reaction.decision@ == DecisionView::Wait
            },
            Event::FeedClosed => {
                &&& self.risk == (RiskManager { halted: Some(HaltReason::WsChannelClosed), ..before.risk })
                &&& *self == (Session { risk: self.risk, ..before })
                &&& reaction.outcome == (Outcome { cancel_all: true, rotate: true, ..quiet() })
                &&& reaction.decision@ == DecisionView::Wait
            },
        }
    }

    /// Takes in whatever comes to the session.
    pub fn step(&mut self, event: &Event) -> (reaction: Reaction)
        requires
            old(self).wf(),
            old(self).event_fits(*event),
        ensures
            final(self).stepped(*old(self), *event, reaction),
    {
        let mut outcome = Outcome {
            trend: TrendStep::Keep,
            book_changed: false,
            got_fill: false,
            cancel_all: false,
            rotate: false,
        };
        let mut decision: Decision = Decision::Wait;
        match event {
            Event::Round { close, now } => {
                let ends: bool = self.should_rotate(*close, *now);
                outcome.cancel_all = ends;
                outcome.rotate = ends;
            },
            Event::Message { msg, now_ms } => {
                outcome = self.on_message(msg, *now_ms);
            },
            Event::Heard { news, trend, now_ms } => {
                decision = self.decide(*news, *trend, *now_ms);
            },
            Event::Pause { now_ms } => {
                self.tidy(*now_ms);
            },
            Event::FeedClosed => {
                self.on_feed_closed();
                outcome.cancel_all = true;
                outcome.rotate = true;
            },
        }
        let exit: Option<i64> = if outcome.rotate {
            Some(self.risk.daily_pnl_cents)
        } else {
            None
        };
        Reaction { outcome, decision, exit }
    }
}

} // verus!
