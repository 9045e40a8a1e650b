//! Where the market maker wants to quote, and what it does to get there.

use crate::bits::has_bit;
use crate::config::Config;
use crate::execution::{first_working, OrderModel, OrderTracker, TrackedOrder};
use crate::market_data::{highest_below, lemma_highest_below, BookSide, OrderBook, TrendDirection};
use crate::risk::{RiskManager, RiskState};
use vstd::prelude::*;

verus! {

/// The prices to quote at, in cents of the YES contract; 0 for a side that is not to be quoted.
#[derive(Debug, Clone, Copy, PartialEq, Eq, Structural)]
pub struct DesiredQuote {
    pub bid_price: i64,
    pub ask_price: i64,
}

#[derive(Debug)]
pub enum StrategyAction {
    PlaceBid { price_cents: i64, count: i64 },
    /// An offer of YES at `price_cents`.
    PlaceAsk { price_cents: i64, count: i64 },
    CancelOrder { order_id: String },
    AmendBid { order_id: String, client_order_id: String, new_price_cents: i64, count: i64 },
    /// The new price is that of the bid for NO.
    AmendAsk { order_id: String, client_order_id: String, new_price_cents: i64, count: i64 },
    CancelAll,
}

/// What a [`StrategyAction`] says.
#[verifier::ext_equal]
pub enum ActionModel {
    PlaceBid { price_cents: int, count: int },
    PlaceAsk { price_cents: int, count: int },
    CancelOrder { order_id: Seq<char> },
    AmendBid { order_id: Seq<char>, client_order_id: Seq<char>, new_price_cents: int, count: int },
    AmendAsk { order_id: Seq<char>, client_order_id: Seq<char>, new_price_cents: int, count: int },
    CancelAll,
}

impl View for StrategyAction {
    type V = ActionModel;

    open spec fn view(&self) -> ActionModel {
        match self {
            StrategyAction::PlaceBid { price_cents, count } => ActionModel::PlaceBid {
                price_cents: *price_cents as int,
                count: *count as int,
            },
            StrategyAction::PlaceAsk { price_cents, count } => ActionModel::PlaceAsk {
                price_cents: *price_cents as int,
                count: *count as int,
            },
            StrategyAction::CancelOrder { order_id } => ActionModel::CancelOrder { order_id: order_id@ },
            StrategyAction::AmendBid { order_id, client_order_id, new_price_cents, count } => ActionModel::AmendBid {
                order_id: order_id@,
                client_order_id: client_order_id@,
                new_price_cents: *new_price_cents as int,
                count: *count as int,
            },
            StrategyAction::AmendAsk { order_id, client_order_id, new_price_cents, count } => ActionModel::AmendAsk {
                order_id: order_id@,
                client_order_id: client_order_id@,
                new_price_cents: *new_price_cents as int,
                count: *count as int,
            },
            StrategyAction::CancelAll => ActionModel::CancelAll,
        }
    }
}

/// What actions say, in order.
pub open spec fn actions_view(actions: Seq<StrategyAction>) -> Seq<ActionModel> {
    actions.map_values(|action: StrategyAction| action@)
}

/// A bid and an offer of YES, in cents.
#[verifier::ext_equal]
pub struct Quote {
    pub bid: int,
    pub ask: int,
}

/// The best price of others on one side: the best bid, or the next one where all of the best bid
/// is our own order `mine`.
pub open spec fn others_best(side: BookSide, mine: Option<OrderModel>) -> int {
    match mine {
        Some(order) => if side.best_bid == order.price_cents && side.quantities@[side.best_bid as int]
            <= order.remaining {
            highest_below(side.occupied, side.best_bid as int)
        } else {
            side.best_bid as int
        },
        None => side.best_bid as int,
    }
}

/// The market without our own orders.
pub open spec fn true_market(book: OrderBook, my_bid: Option<OrderModel>, my_ask: Option<OrderModel>) -> Quote {
    let no_bid = others_best(book.no_bids, my_ask);
    Quote {
        bid: others_best(book.yes_bids, my_bid),
        ask: if no_bid > 0 {
            100 - no_bid
        } else {
            0
        },
    }
}

/// Whether a market has two sides and is not crossed.
pub open spec fn two_sided(market: Quote) -> bool {
    0 < market.bid < market.ask
}

/// On a spread of 1 or 2 cents join the market on both sides, on a wider one improve it by a cent.
pub open spec fn placed(market: Quote) -> Quote {
    if market.ask - market.bid <= 2 {
        market
    } else {
        Quote { bid: market.bid + 1, ask: market.ask - 1 }
    }
}

/// In a trend, stay a cent behind on the side that the trend makes dangerous: the bid in a rising
/// market, the offer in a falling one.
pub open spec fn faded(quote: Quote, trend: TrendDirection) -> Quote {
    match trend {
        TrendDirection::Up => Quote { bid: quote.bid - 1, ..quote },
        TrendDirection::Down => Quote { ask: quote.ask + 1, ..quote },
        TrendDirection::Flat => quote,
    }
}

/// How many cents a position of `contracts` moves the quote: one per `step`, at most two.
pub open spec fn skew(contracts: int, step: int) -> int {
    if contracts / step > 2 {
        2
    } else {
        contracts / step
    }
}

/// With a position, move the side that reduces it: raise the bid when short, lower the offer when
/// long.
pub open spec fn skewed(quote: Quote, inventory: int, step: int) -> Quote {
    if inventory < 0 {
        Quote { bid: quote.bid + skew(-inventory, step), ..quote }
    } else if inventory > 0 {
        Quote { ask: quote.ask - skew(inventory, step), ..quote }
    } else {
        quote
    }
}

pub open spec fn clamped(x: int, low: int, high: int) -> int {
    if x < low {
        low
    } else if x > high {
        high
    } else {
        x
    }
}

/// Bids from 1 to 98, offers from 2 to 99.
pub open spec fn bounded(quote: Quote) -> Quote {
    Quote { bid: clamped(quote.bid, 1, 98), ask: clamped(quote.ask, 2, 99) }
}

/// A bid that met the offer: one of them gives way, the offer of one who is long, else the bid.
pub open spec fn parted(quote: Quote, inventory: int) -> Quote {
    if quote.bid < quote.ask {
        quote
    } else if inventory > 0 {
        Quote { ask: quote.bid + 1, ..quote }
    } else {
        Quote { bid: quote.ask - 1, ..quote }
    }
}

/// Never at or through the other side of the market.
pub open spec fn uncrossed(quote: Quote, market: Quote) -> Quote {
    Quote {
        bid: if quote.bid < market.ask {
            quote.bid
        } else {
            market.ask - 1
        },
        ask: if quote.ask > market.bid {
            quote.ask
        } else {
            market.bid + 1
        },
    }
}

/// The quote for a two-sided market, before the limits on profit and risk.
pub open spec fn layered(market: Quote, trend: TrendDirection, inventory: int, step: int) -> Quote {
    uncrossed(parted(bounded(skewed(faded(placed(market), trend), inventory, step)), inventory), market)
}

/// What to quote: nothing where quoting is off, the market is not two-sided or the pair would
/// bring less than `min_profit`; else the layered quote, on the sides that are allowed.
pub open spec fn desired(
    quoting: bool,
    market: Quote,
    trend: TrendDirection,
    inventory: int,
    step: int,
    min_profit: int,
    may_bid: bool,
    may_ask: bool,
) -> Quote {
    let quote = layered(market, trend, inventory, step);
    if !quoting || !two_sided(market) || quote.ask - quote.bid < min_profit {
        Quote { bid: 0, ask: 0 }
    } else {
        Quote {
            bid: if may_bid {
                quote.bid
            } else {
                0
            },
            ask: if may_ask {
                quote.ask
            } else {
                0
            },
        }
    }
}

/// Whether the skew of `quote` can be computed within the machine's integers.
pub open spec fn skew_fits(quote: Quote, inventory: int, step: int) -> bool {
    inventory != 0 ==> {
        &&& step != 0
        &&& inventory != i64::MIN
        &&& inventory > 0 ==> quote.ask - skew(inventory, step) <= i64::MAX
    }
}

pub struct Strategy {
    pub config: Config,
}

fn clamp(x: i64, low: i64, high: i64) -> (r: i64)
    ensures
        r == clamped(x as int, low as int, high as int),
{
    if x < low {
        low
    } else if x > high {
        high
    } else {
        x
    }
}

proof fn lemma_quotient(x: int, d: int)
    requires
        x > 0,
        d != 0,
    ensures
        d > 0 ==> 0 <= x / d <= x,
        d < 0 ==> x / d == -(x / -d) && -x <= x / d <= 0,
{
    if d > 0 {
        assert(0 <= x / d <= x) by (nonlinear_arith)
            requires
                x > 0,
                d > 0,
        ;
    } else {
        let e = -d;
        assert(0 <= x / e <= x) by (nonlinear_arith)
            requires
                x > 0,
                e > 0,
        ;
        assert(x / d == -(x / e)) by (nonlinear_arith)
            requires
                x > 0,
                d < 0,
                e == -d,
        ;
    }
}

fn skew_of(contracts: i64, step: i64) -> (r: i64)
    requires
        contracts > 0,
        step != 0,
    ensures
        r == skew(contracts as int, step as int),
        r <= 2,
        r >= -contracts,
{
    let steps: i64 = contracts / step;
    proof {
        lemma_quotient(contracts as int, step as int);
    }
    if steps > 2 {
        2
    } else {
        steps
    }
}

/// What an order says, where there is one.
pub open spec fn order_view(order: Option<&TrackedOrder>) -> Option<OrderModel> {
    match order {
        Some(order) => Some(order@),
        None => None,
    }
}

/// The best price of others on `side`, where `mine` is our own order there.
fn best_of_others(side: &BookSide, mine: Option<&TrackedOrder>) -> (r: i64)
    requires
        side.wf(),
    ensures
        r == others_best(*side, order_view(mine)),
        0 <= r <= 99,
{
    let best: i64 = side.best_bid;
    assert(side.occupied != 0 ==> has_bit(side.occupied, best as int));
    match mine {
        Some(order) => {
            if best == order.price_cents && side.quantities[best as usize] <= order.remaining {
                proof {
                    lemma_highest_below(side.occupied, best as int);
                }
                side.best_bid_below(best)
            } else {
                best
            }
        },
        None => best,
    }
}

/// The best bid and offer of others; the offer is 0 where there is none.
fn market_of_others(book: &OrderBook, my_bid: Option<&TrackedOrder>, my_ask: Option<&TrackedOrder>) -> (r: (i64, i64))
    requires
        book.wf(),
    ensures
        (Quote { bid: r.0 as int, ask: r.1 as int }) == true_market(*book, order_view(my_bid), order_view(my_ask)),
        0 <= r.0 <= 99,
        0 <= r.1 <= 99,
{
    let bid: i64 = best_of_others(&book.yes_bids, my_bid);
    let no_bid: i64 = best_of_others(&book.no_bids, my_ask);
    let ask: i64 = if no_bid > 0 {
        100 - no_bid
    } else {
        0
    };
    (bid, ask)
}

/// The market's prices, joined or improved, with the trend taken into account.
fn base_quote(market: (i64, i64), trend: TrendDirection) -> (r: (i64, i64))
    requires
        0 < market.0 < market.1 <= 99,
    ensures
        (Quote { bid: r.0 as int, ask: r.1 as int }) == faded(
            placed(Quote { bid: market.0 as int, ask: market.1 as int }),
            trend,
        ),
        0 <= r.0 <= 98,
        2 <= r.1 <= 100,
        r.0 < r.1,
{
    let (mut bid, mut ask): (i64, i64) = if market.1 - market.0 <= 2 {
        (market.0, market.1)
    } else {
        (market.0 + 1, market.1 - 1)
    };
    match trend {
        TrendDirection::Up => {
            bid = bid - 1;
        },
        TrendDirection::Down => {
            ask = ask + 1;
        },
        TrendDirection::Flat => {},
    }
    (bid, ask)
}

impl Strategy {
    pub fn new(config: Config) -> (r: Self)
        ensures
            r.config == config,
    {
        Self { config }
    }

    /// The market without our own orders in the market `ticker`.
    pub open spec fn market(book: OrderBook, orders: Seq<OrderModel>, ticker: Seq<char>) -> Quote {
        true_market(book, first_working(orders, ticker, "yes"@), first_working(orders, ticker, "no"@))
    }

    /// Whether the desired quote can be computed within the machine's integers.
    pub open spec fn quote_fits(
        &self,
        book: OrderBook,
        orders: Seq<OrderModel>,
        ticker: Seq<char>,
        risk: RiskManager,
        trend: TrendDirection,
    ) -> bool {
        let market = Self::market(book, orders, ticker);
        risk.state() == RiskState::Normal && book.initialized && two_sided(market) ==> skew_fits(
            faded(placed(market), trend),
            risk.inventory as int,
            self.config.inventory_skew_threshold as int,
        )
    }

    /// Where we want to quote.
    pub open spec fn desired_quote(
        &self,
        book: OrderBook,
        orders: Seq<OrderModel>,
        ticker: Seq<char>,
        risk: RiskManager,
        trend: TrendDirection,
    ) -> Quote {
        desired(
            risk.state() == RiskState::Normal && book.initialized,
            Self::market(book, orders, ticker),
            trend,
            risk.inventory as int,
            self.config.inventory_skew_threshold as int,
            self.config.min_pair_profit_cents as int,
            risk.may_bid(),
            risk.may_ask(),
        )
    }

    /// Whether `compute_desired_quotes` can be called with these arguments.
    pub fn accepts_quote(
        &self,
        book: &OrderBook,
        tracker: &OrderTracker,
        ticker: &str,
        risk: &RiskManager,
        trend: TrendDirection,
    ) -> (r: bool)
        requires
            book.wf(),
        ensures
            r == self.quote_fits(*book, tracker@, ticker@, *risk, trend),
    {
        if !risk.should_quote() || !book.initialized {
            return true;
        }
        let market: (i64, i64) = market_of_others(book, tracker.resting_bid(ticker), tracker.resting_ask(ticker));
        if market.0 <= 0 || market.1 <= market.0 {
            return true;
        }
        let ask: i64 = base_quote(market, trend).1;
        let step: i64 = self.config.inventory_skew_threshold;
        if risk.inventory == 0 {
            true
        } else if step == 0 || risk.inventory == i64::MIN {
            false
        } else if risk.inventory > 0 {
            ask.checked_sub(skew_of(risk.inventory, step)).is_some()
        } else {
            true
        }
    }

    /// Computes where we want to quote: the base placement by the spread, faded from the trend,
    /// skewed by the inventory, within the limits on profit and risk.
    pub fn compute_desired_quotes(
        &self,
        book: &OrderBook,
        tracker: &OrderTracker,
        ticker: &str,
        risk: &RiskManager,
        trend: TrendDirection,
    ) -> (r: DesiredQuote)
        requires
            book.wf(),
            self.quote_fits(*book, tracker@, ticker@, *risk, trend),
        ensures
            r.bid_price == self.desired_quote(*book, tracker@, ticker@, *risk, trend).bid,
            r.ask_price == self.desired_quote(*book, tracker@, ticker@, *risk, trend).ask,
    {
        let none = DesiredQuote { bid_price: 0, ask_price: 0 };
        if !risk.should_quote() || !book.initialized {
            return none;
        }
        let market: (i64, i64) = market_of_others(book, tracker.resting_bid(ticker), tracker.resting_ask(ticker));
        let (true_bid, true_ask): (i64, i64) = market;
        if true_bid <= 0 || true_ask <= 0 || true_ask <= true_bid {
            return none;
        }
        let (mut bid, mut ask): (i64, i64) = base_quote(market, trend);
        let inv: i64 = risk.inventory;
        let step: i64 = self.config.inventory_skew_threshold;
        if inv < 0 {
            bid = bid + skew_of(-inv, step);
        }
        if inv > 0 {
            ask = ask - skew_of(inv, step);
        }
        bid = clamp(bid, 1, 98);
        ask = clamp(ask, 2, 99);
        if bid >= ask {
            if inv > 0 {
                ask = bid + 1;
            } else if inv < 0 {
                bid = ask - 1;
            } else {
                let mid: i64 = (bid + ask) / 2;
                bid = mid;
                ask = mid + 1;
            }
        }
        bid = clamp(bid, 1, 98);
        ask = clamp(ask, 2, 99);
        if bid >= true_ask {
            bid = true_ask - 1;
        }
        if ask <= true_bid {
            ask = true_bid + 1;
        }
        if bid < 1 {
            bid = 0;
        }
        if ask > 99 {
            ask = 0;
        }
        if bid > 0 && ask > 0 && ask - bid < self.config.min_pair_profit_cents {
            return none;
        }
        DesiredQuote {
            bid_price: if risk.can_bid() {
                bid
            } else {
                0
            },
            ask_price: if risk.can_ask() {
                ask
            } else {
                0
            },
        }
    }

    /// What brings the bid that is in the market, if any, to the desired one.
    pub open spec fn bid_actions(desired: int, current: Option<OrderModel>) -> Seq<ActionModel> {
        match current {
            Some(order) => if desired == 0 {
                seq![ActionModel::CancelOrder { order_id: order.order_id }]
            } else if desired > 0 && desired != order.price_cents {
                seq![
                    ActionModel::AmendBid {
                        order_id: order.order_id,
                        client_order_id: order.client_order_id,
                        new_price_cents: desired,
                        count: 1,
                    },
                ]
            } else {
                Seq::empty()
            },
            None => if desired > 0 {
                seq![ActionModel::PlaceBid { price_cents: desired, count: 1 }]
            } else {
                Seq::empty()
            },
        }
    }

    /// What brings the offer that is in the market, if any, to the desired one. The order in the
    /// market is a bid for NO at the complement of the price of YES.
    pub open spec fn ask_actions(desired: int, current: Option<OrderModel>) -> Seq<ActionModel> {
        match current {
            Some(order) => if desired == 0 {
                seq![ActionModel::CancelOrder { order_id: order.order_id }]
            } else if desired > 0 && 100 - desired != order.price_cents {
                seq![
                    ActionModel::AmendAsk {
                        order_id: order.order_id,
                        client_order_id: order.client_order_id,
                        new_price_cents: 100 - desired,
                        count: 1,
                    },
                ]
            } else {
                Seq::empty()
            },
            None => if desired > 0 {
                seq![ActionModel::PlaceAsk { price_cents: desired, count: 1 }]
            } else {
                Seq::empty()
            },
        }
    }

    /// What brings the orders in the market `ticker` to the desired quote.
    pub open spec fn actions_for(
        bid: int,
        ask: int,
        orders: Seq<OrderModel>,
        ticker: Seq<char>,
    ) -> Seq<ActionModel> {
        Self::bid_actions(bid, first_working(orders, ticker, "yes"@)) + Self::ask_actions(
            ask,
            first_working(orders, ticker, "no"@),
        )
    }

    /// Reconciles the desired quote with the orders in the market: the bid first, then the offer.
    pub fn reconcile(&self, desired: &DesiredQuote, tracker: &OrderTracker, ticker: &str) -> (actions: Vec<StrategyAction>)
        ensures
            actions_view(actions@) == Self::actions_for(
                desired.bid_price as int,
                desired.ask_price as int,
                tracker@,
                ticker@,
            ),
    {
        let mut actions: Vec<StrategyAction> = Vec::with_capacity(2);
        match tracker.resting_bid(ticker) {
            Some(order) => {
                if desired.bid_price == 0 {
                    actions.push(StrategyAction::CancelOrder { order_id: order.order_id.clone() });
                } else if desired.bid_price > 0 && desired.bid_price != order.price_cents {
                    actions.push(
                        StrategyAction::AmendBid {
                            order_id: order.order_id.clone(),
                            client_order_id: order.client_order_id.clone(),
                            new_price_cents: desired.bid_price,
                            count: 1,
                        },
                    );
                }
            },
            None => {
                if desired.bid_price > 0 {
                    actions.push(StrategyAction::PlaceBid { price_cents: desired.bid_price, count: 1 });
                }
            },
        }
        assert(actions_view(actions@) =~= Self::bid_actions(
            desired.bid_price as int,
            first_working(tracker@, ticker@, "yes"@),
        ));
        match tracker.resting_ask(ticker) {
            Some(order) => {
                if desired.ask_price == 0 {
                    actions.push(StrategyAction::CancelOrder { order_id: order.order_id.clone() });
                } else if desired.ask_price > 0 {
                    let desired_no_price: i64 = 100 - desired.ask_price;
                    if desired_no_price != order.price_cents {
                        actions.push(
                            StrategyAction::AmendAsk {
                                order_id: order.order_id.clone(),
                                client_order_id: order.client_order_id.clone(),
                                new_price_cents: desired_no_price,
                                count: 1,
                            },
                        );
                    }
                }
            },
            None => {
                if desired.ask_price > 0 {
                    actions.push(StrategyAction::PlaceAsk { price_cents: desired.ask_price, count: 1 });
                }
            },
        }
        assert(actions_view(actions@) =~= Self::actions_for(
            desired.bid_price as int,
            desired.ask_price as int,
            tracker@,
            ticker@,
        ));
        actions
    }
}

} // verus!
