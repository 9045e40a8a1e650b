//! What holds of every quote that the strategy wants.

use crate::bits::{has_bit, lemma_empty_mask};
use crate::execution::{first_working, OrderModel, OrderStatus};
use crate::market_data::{lemma_highest_below, tradable, BookSide, OrderBook, TrendDirection};
use crate::risk::{RiskManager, RiskState};
use crate::strategy::{
    bounded, faded, layered, others_best, placed, skew, skew_fits, skewed, two_sided, ActionModel, Quote, Strategy,
};
use vstd::prelude::*;

verus! {

/// Whether `market` is one that a book of contracts from 1 to 99 cents can show.
pub open spec fn tradable_market(market: Quote) -> bool {
    0 < market.bid < market.ask <= 99
}

/// A quote is a bid from 1 to 98 and an offer from 2 to 99, each or both of them missing.
pub proof fn law_quote_is_in_range(
    strategy: Strategy,
    book: OrderBook,
    orders: Seq<OrderModel>,
    ticker: Seq<char>,
    risk: RiskManager,
    trend: TrendDirection,
)
    requires
        book.wf(),
    ensures
        ({
            let quote = strategy.desired_quote(book, orders, ticker, risk, trend);
            &&& quote.bid == 0 || 1 <= quote.bid <= 98
            &&& quote.ask == 0 || 2 <= quote.ask <= 99
        }),
{
    lemma_market_range(book, orders, ticker);
}

/// A bid and an offer that are both quoted make a pair that brings at least the minimum profit,
/// and at least one cent.
pub proof fn law_pair_is_profitable(
    strategy: Strategy,
    book: OrderBook,
    orders: Seq<OrderModel>,
    ticker: Seq<char>,
    risk: RiskManager,
    trend: TrendDirection,
)
    requires
        book.wf(),
    ensures
        ({
            let quote = strategy.desired_quote(book, orders, ticker, risk, trend);
            quote.bid != 0 && quote.ask != 0 ==> {
                &&& quote.ask - quote.bid >= strategy.config.min_pair_profit_cents
                &&& quote.ask - quote.bid >= 1
            }
        }),
{
    lemma_market_range(book, orders, ticker);
}

/// A quote never meets the other side of the market: no bid at or above the offer of others, no
/// offer at or below their bid.
pub proof fn law_quote_never_crosses(
    strategy: Strategy,
    book: OrderBook,
    orders: Seq<OrderModel>,
    ticker: Seq<char>,
    risk: RiskManager,
    trend: TrendDirection,
)
    requires
        book.wf(),
    ensures
        ({
            let market = Strategy::market(book, orders, ticker);
            let quote = strategy.desired_quote(book, orders, ticker, risk, trend);
            &&& quote.bid != 0 ==> quote.bid < market.ask
            &&& quote.ask != 0 ==> quote.ask > market.bid
        }),
{
    lemma_market_range(book, orders, ticker);
}

/// Self-exclusion: the best price of others is the one that a side shows once our own order, as
/// far as it is still open, is taken out of it.
pub proof fn law_own_order_is_left_out(side: BookSide, order: OrderModel, without: BookSide)
    requires
        side.wf(),
        order.remaining >= 0,
        side.delta_fits(order.price_cents, -order.remaining),
        without.changed_from(side, order.price_cents, -order.remaining),
    ensures
        others_best(side, Some(order)) == without.best_bid,
        others_best(side, None) == side.best_bid,
{
    let price = order.price_cents;
    lemma_empty_mask(side.occupied);
    lemma_empty_mask(without.occupied);
    lemma_highest_below(side.occupied, side.best_bid as int);
    let rest = others_best(side, Some(order));
    if side.occupied != 0 {
        assert(has_bit(side.occupied, side.best_bid as int));
        assert(side.quantities@[side.best_bid as int] > 0);
    }
    if without.occupied != 0 {
        assert(has_bit(without.occupied, without.best_bid as int));
    }
    if tradable(price) {
        assert(side.filled(price) <==> has_bit(side.occupied, price));
        assert(has_bit(side.occupied, price) ==> price <= side.best_bid);
        assert(rest != 0 ==> has_bit(without.occupied, rest));
        assert(without.best_bid != 0 ==> has_bit(side.occupied, without.best_bid as int));
    }
}

/// Nothing is quoted while trading is halted, before the book is known, or in a market without
/// two sides.
pub proof fn law_no_quote_without_market(
    strategy: Strategy,
    book: OrderBook,
    orders: Seq<OrderModel>,
    ticker: Seq<char>,
    risk: RiskManager,
    trend: TrendDirection,
)
    requires
        risk.state() == RiskState::Halted || !book.initialized || !two_sided(Strategy::market(book, orders, ticker)),
    ensures
        strategy.desired_quote(book, orders, ticker, risk, trend) == (Quote { bid: 0, ask: 0 }),
{
}

/// A side that the position limits close is not quoted, whatever the market.
pub proof fn law_closed_side_is_not_quoted(
    strategy: Strategy,
    book: OrderBook,
    orders: Seq<OrderModel>,
    ticker: Seq<char>,
    risk: RiskManager,
    trend: TrendDirection,
)
    ensures
        !risk.may_bid() ==> strategy.desired_quote(book, orders, ticker, risk, trend).bid == 0,
        !risk.may_ask() ==> strategy.desired_quote(book, orders, ticker, risk, trend).ask == 0,
{
}

/// Base placement: with no trend and no position, a spread of 1 or 2 cents is joined on both
/// sides, a wider one is improved by a cent on both sides.
pub proof fn law_base_placement(market: Quote, step: int)
    requires
        tradable_market(market),
    ensures
        market.ask - market.bid <= 2 ==> layered(market, TrendDirection::Flat, 0, step) == market,
        market.ask - market.bid > 2 ==> layered(market, TrendDirection::Flat, 0, step) == (Quote {
            bid: market.bid + 1,
            ask: market.ask - 1,
        }),
{
}

/// Trend fade, at any position: in a rising market neither the bid nor the offer is higher than
/// without a trend, in a falling market neither is lower. Where the skew does not bring the bid to
/// the offer, the safe side is the same as without a trend: the offer in a rising market, the bid
/// in a falling one. There the dangerous side is a cent behind: the bid is a cent lower, unless it
/// is at the bottom of the range or the skew had put it above the top, and the offer is a cent
/// higher, unless it is at the top of the range or the skew had put it below the bottom.
pub proof fn law_trend_fade(market: Quote, inventory: int, step: int)
    requires
        tradable_market(market),
    ensures
        ({
            let flat = layered(market, TrendDirection::Flat, inventory, step);
            let up = layered(market, TrendDirection::Up, inventory, step);
            let down = layered(market, TrendDirection::Down, inventory, step);
            let raw = skewed(placed(market), inventory, step);
            let apart = bounded(raw).bid < bounded(raw).ask;
            &&& up.bid <= flat.bid && up.ask <= flat.ask
            &&& down.bid >= flat.bid && down.ask >= flat.ask
            &&& apart ==> up.ask == flat.ask && down.bid == flat.bid
            &&& apart && raw.bid <= 98 ==> up.bid == (if flat.bid > 1 {
                flat.bid - 1
            } else {
                1
            })
            &&& apart && raw.ask >= 2 ==> down.ask == (if flat.ask < 99 {
                flat.ask + 1
            } else {
                99
            })
        }),
{
}

/// With no position the skew brings no bid to the offer and none out of the range, so the fade is
/// exact.
pub proof fn law_no_position_keeps_the_sides_apart(market: Quote, step: int)
    requires
        tradable_market(market),
    ensures
        skewed(placed(market), 0, step) == placed(market),
        bounded(placed(market)) == placed(market),
        placed(market).bid < placed(market).ask,
{
}

/// Inventory skew: a long position lowers the offer by at most two cents and leaves the bid as it
/// is; a short position raises the bid by at most two cents and leaves the offer as it is.
pub proof fn law_inventory_skew(market: Quote, trend: TrendDirection, inventory: int, step: int)
    requires
        tradable_market(market),
        step > 0,
    ensures
        ({
            let even = layered(market, trend, 0, step);
            let quote = layered(market, trend, inventory, step);
            &&& inventory >= 0 ==> quote.bid == even.bid && even.ask - 2 <= quote.ask <= even.ask
            &&& inventory <= 0 ==> quote.ask == even.ask && even.bid <= quote.bid <= even.bid + 2
        }),
{
    if inventory > 0 {
        lemma_skew_range(inventory, step);
    } else if inventory < 0 {
        lemma_skew_range(-inventory, step);
    }
}

/// A larger position never moves the quote less: the longer, the lower the offer; the shorter,
/// the higher the bid.
pub proof fn law_skew_grows_with_position(market: Quote, trend: TrendDirection, less: int, more: int, step: int)
    requires
        tradable_market(market),
        step > 0,
        0 <= less <= more,
    ensures
        layered(market, trend, more, step).ask <= layered(market, trend, less, step).ask,
        layered(market, trend, -more, step).bid >= layered(market, trend, -less, step).bid,
{
    if less > 0 {
        lemma_skew_range(less, step);
        lemma_skew_range(more, step);
        assert(less / step <= more / step) by (nonlinear_arith)
            requires
                0 < less <= more,
                step > 0,
        ;
    } else if more > 0 {
        lemma_skew_range(more, step);
    }
}

/// With a positive skew threshold every position but the lowest integer can be quoted.
pub proof fn law_positive_threshold_always_fits(market: Quote, trend: TrendDirection, inventory: int, step: int)
    requires
        tradable_market(market),
        step > 0,
        i64::MIN < inventory <= i64::MAX,
    ensures
        skew_fits(faded(placed(market), trend), inventory, step),
{
    if inventory > 0 {
        lemma_skew_range(inventory, step);
    }
}

/// Each side takes at most one action, and a market that is as desired takes none: nothing is
/// done for a bid that rests at the desired price, nor for an offer that does, nor for a side that
/// is neither wanted nor there.
pub proof fn law_settled_quote_needs_no_action(bid: int, ask: int, orders: Seq<OrderModel>, ticker: Seq<char>)
    requires
        bid >= 0,
        ask >= 0,
    ensures
        Strategy::actions_for(bid, ask, orders, ticker).len() <= 2,
        ({
            let my_bid = first_working(orders, ticker, "yes"@);
            let my_ask = first_working(orders, ticker, "no"@);
            Strategy::actions_for(bid, ask, orders, ticker) == Seq::<ActionModel>::empty() <==> {
                &&& match my_bid {
                    Some(order) => bid > 0 && order.price_cents == bid,
                    None => bid == 0,
                }
                &&& match my_ask {
                    Some(order) => ask > 0 && order.price_cents == 100 - ask,
                    None => ask == 0,
                }
            }
        }),
{
    let actions = Strategy::actions_for(bid, ask, orders, ticker);
    let bids = Strategy::bid_actions(bid, first_working(orders, ticker, "yes"@));
    let asks = Strategy::ask_actions(ask, first_working(orders, ticker, "no"@));
    assert(actions.len() == bids.len() + asks.len());
    if bids.len() == 0 && asks.len() == 0 {
        assert(actions =~= Seq::<ActionModel>::empty());
    }
}

/// Whether `order` is a buy of `side` in the market `ticker` that is in the market or on its way.
pub open spec fn buys(order: OrderModel, ticker: Seq<char>, side: Seq<char>) -> bool {
    &&& order.ticker == ticker
    &&& order.side == side
    &&& order.action == "buy"@
    &&& order.status == OrderStatus::PendingNew || order.status == OrderStatus::Resting || order.status
        == OrderStatus::PendingAmend
}

/// Whether nothing keeps the market maker from quoting: it is connected and not halted, the
/// position is short of the hard cap on both sides, the loss is short of its cap, and the book is
/// known.
pub open spec fn free_to_quote(risk: RiskManager, book: OrderBook) -> bool {
    &&& risk.ws_connected
    &&& risk.halted is None
    &&& -risk.hard_inventory_cap < risk.inventory < risk.hard_inventory_cap
    &&& risk.daily_pnl_cents > -risk.daily_loss_cap_cents
    &&& book.initialized
}

/// Whether none of `orders` buys either side in the market `ticker`.
pub open spec fn no_own_orders(orders: Seq<OrderModel>, ticker: Seq<char>) -> bool {
    forall|i: int|
        0 <= i < orders.len() ==> !buys(#[trigger] orders[i], ticker, "yes"@) && !buys(orders[i], ticker, "no"@)
}

/// Whether `moved` is the number of cents by which a position moves the quote: one for each `step`
/// contracts of it, two at most. A negative step moves the quote the other way, without a limit.
pub open spec fn moves_by(inventory: int, step: int, moved: int) -> bool {
    let held = if inventory < 0 {
        -inventory
    } else {
        inventory
    };
    if held == 0 {
        moved == 0
    } else if step > 0 {
        0 <= moved <= 2 && moved * step <= held && (moved == 2 || held < (moved + 1) * step)
    } else {
        step < 0 && moved <= 0 && moved * step <= held < (moved - 1) * step
    }
}

/// The quote is owed, and which one it is: where nothing keeps the market maker from quoting and
/// the book shows a bid and a higher offer, with none of them its own.
///
/// The side of the position's own direction is at the market's price, or a cent inside it on a
/// spread over two cents, and a cent further out against the trend, but within the range. The side
/// that reduces the position is moved in by a cent for each `step` contracts, two at most, as far as
/// it stays clear of the other side of the quote and of the market. Both are quoted where the pair
/// brings the minimum profit, each only where the position leaves room for it; else neither is.
pub proof fn law_quote_is_owed(
    strategy: Strategy,
    book: OrderBook,
    orders: Seq<OrderModel>,
    ticker: Seq<char>,
    risk: RiskManager,
    trend: TrendDirection,
    moved: int,
)
    requires
        book.wf(),
        free_to_quote(risk, book),
        no_own_orders(orders, ticker),
        0 < book.yes_bids.best_bid,
        0 < book.no_bids.best_bid,
        book.yes_bids.best_bid + book.no_bids.best_bid < 100,
        moves_by(risk.inventory as int, strategy.config.inventory_skew_threshold as int, moved),
    ensures
        ({
            let bid = book.yes_bids.best_bid as int;
            let ask = 100 - book.no_bids.best_bid;
            let inside: int = if ask - bid > 2 {
                1
            } else {
                0
            };
            let low = bid + inside - (if trend == TrendDirection::Up {
                1int
            } else {
                0
            });
            let high = ask - inside + (if trend == TrendDirection::Down {
                1int
            } else {
                0
            });
            let quote = strategy.desired_quote(book, orders, ticker, risk, trend);
            let (want_bid, want_ask) = if risk.inventory >= 0 {
                let b = if low < 1 {
                    1
                } else {
                    low
                };
                let floor = (if b > bid {
                    b
                } else {
                    bid
                }) + 1;
                let a = if high - moved > 99 {
                    99
                } else {
                    high - moved
                };
                (b, if a < floor {
                    floor
                } else {
                    a
                })
            } else {
                let a = if high > 99 {
                    99
                } else {
                    high
                };
                let ceiling = (if a < ask {
                    a
                } else {
                    ask
                }) - 1;
                let b = if low + moved < 1 {
                    1
                } else {
                    low + moved
                };
                (if b > ceiling {
                    ceiling
                } else {
                    b
                }, a)
            };
            if want_ask - want_bid >= strategy.config.min_pair_profit_cents {
                &&& quote.bid == (if risk.inventory < risk.max_inventory {
                    want_bid
                } else {
                    0
                })
                &&& quote.ask == (if risk.inventory > -risk.max_inventory {
                    want_ask
                } else {
                    0
                })
            } else {
                quote.bid == 0 && quote.ask == 0
            }
        }),
{
    lemma_no_own_orders(orders, ticker);
    lemma_market_range(book, orders, ticker);
    let step = strategy.config.inventory_skew_threshold as int;
    if risk.inventory != 0 {
        let held = if risk.inventory < 0 {
            -risk.inventory
        } else {
            risk.inventory as int
        };
        lemma_whole_steps(held, step, moved);
    }
}

/// Nothing is quoted where something keeps the market maker from quoting, nor where the book, with no
/// own orders in it, lacks a side or is crossed.
pub proof fn law_nothing_is_quoted_otherwise(
    strategy: Strategy,
    book: OrderBook,
    orders: Seq<OrderModel>,
    ticker: Seq<char>,
    risk: RiskManager,
    trend: TrendDirection,
)
    requires
        no_own_orders(orders, ticker),
        !free_to_quote(risk, book) || book.yes_bids.best_bid <= 0 || book.no_bids.best_bid <= 0
            || book.yes_bids.best_bid + book.no_bids.best_bid >= 100,
    ensures
        strategy.desired_quote(book, orders, ticker, risk, trend) == (Quote { bid: 0, ask: 0 }),
{
    lemma_no_own_orders(orders, ticker);
}

/// With no trend and no position, a spread of one or two cents is joined and a wider one is improved
/// by a cent on both sides, wherever that brings the minimum profit, however wide the spread is.
pub proof fn law_every_spread_is_quoted(
    strategy: Strategy,
    book: OrderBook,
    orders: Seq<OrderModel>,
    ticker: Seq<char>,
    risk: RiskManager,
)
    requires
        book.wf(),
        free_to_quote(risk, book),
        no_own_orders(orders, ticker),
        0 < book.yes_bids.best_bid,
        0 < book.no_bids.best_bid,
        book.yes_bids.best_bid + book.no_bids.best_bid < 100,
        risk.inventory == 0,
        risk.max_inventory > 0,
    ensures
        ({
            let bid = book.yes_bids.best_bid as int;
            let ask = 100 - book.no_bids.best_bid;
            let quote = strategy.desired_quote(book, orders, ticker, risk, TrendDirection::Flat);
            let profit = strategy.config.min_pair_profit_cents;
            &&& ask - bid <= 2 && ask - bid >= profit ==> quote == (Quote { bid, ask })
            &&& ask - bid > 2 && ask - bid - 2 >= profit ==> quote == (Quote { bid: bid + 1, ask: ask - 1 })
        }),
{
    lemma_no_own_orders(orders, ticker);
    lemma_market_range(book, orders, ticker);
}

/// The market seen from the other side: with the bids for YES and for NO exchanged, the opposite
/// position and the opposite trend, the quote is the same with its sides exchanged.
pub proof fn law_quote_is_symmetric(
    strategy: Strategy,
    book: OrderBook,
    other_book: OrderBook,
    orders: Seq<OrderModel>,
    ticker: Seq<char>,
    risk: RiskManager,
    other_risk: RiskManager,
    trend: TrendDirection,
)
    requires
        book.wf(),
        other_book.wf(),
        no_own_orders(orders, ticker),
        other_book.yes_bids == book.no_bids,
        other_book.no_bids == book.yes_bids,
        other_book.initialized == book.initialized,
        other_risk == (RiskManager { inventory: other_risk.inventory, ..risk }),
        other_risk.inventory == -risk.inventory,
    ensures
        ({
            let other_trend = opposite(trend);
            let quote = strategy.desired_quote(book, orders, ticker, risk, trend);
            let other = strategy.desired_quote(other_book, orders, ticker, other_risk, other_trend);
            &&& quote.bid == 0 <==> other.ask == 0
            &&& quote.ask == 0 <==> other.bid == 0
            &&& quote.bid != 0 ==> other.ask == 100 - quote.bid
            &&& quote.ask != 0 ==> other.bid == 100 - quote.ask
        }),
{
    lemma_no_own_orders(orders, ticker);
    lemma_market_range(book, orders, ticker);
    let market = Strategy::market(book, orders, ticker);
    if two_sided(market) {
        assert(Strategy::market(other_book, orders, ticker) == mirrored(market));
        lemma_layers_are_symmetric(
            market,
            trend,
            risk.inventory as int,
            strategy.config.inventory_skew_threshold as int,
        );
        lemma_layers_in_range(market, trend, risk.inventory as int, strategy.config.inventory_skew_threshold as int);
    }
}

pub open spec fn opposite(trend: TrendDirection) -> TrendDirection {
    match trend {
        TrendDirection::Up => TrendDirection::Down,
        TrendDirection::Down => TrendDirection::Up,
        TrendDirection::Flat => TrendDirection::Flat,
    }
}

spec fn mirrored(quote: Quote) -> Quote {
    Quote { bid: 100 - quote.ask, ask: 100 - quote.bid }
}

proof fn lemma_layers_in_range(market: Quote, trend: TrendDirection, inventory: int, step: int)
    requires
        tradable_market(market),
    ensures
        1 <= layered(market, trend, inventory, step).bid <= 98,
        2 <= layered(market, trend, inventory, step).ask <= 99,
{
}

proof fn lemma_layers_are_symmetric(market: Quote, trend: TrendDirection, inventory: int, step: int)
    requires
        tradable_market(market),
    ensures
        layered(mirrored(market), opposite(trend), -inventory, step) == mirrored(layered(market, trend, inventory, step)),
{
    let there = mirrored(market);
    assert(placed(there) == mirrored(placed(market)));
    assert(faded(placed(there), opposite(trend)) == mirrored(faded(placed(market), trend)));
    let here = faded(placed(market), trend);
    assert(skewed(mirrored(here), -inventory, step) == mirrored(skewed(here, inventory, step)));
    let raw = skewed(here, inventory, step);
    assert(bounded(mirrored(raw)) == mirrored(bounded(raw)));
}

/// Whether `without` is `side` with what is still open of `mine`, where there is such an order, taken
/// out of it.
pub open spec fn taken_out(side: BookSide, mine: Option<OrderModel>, without: BookSide) -> bool {
    match mine {
        Some(order) => {
            &&& order.remaining >= 0
            &&& side.delta_fits(order.price_cents, -order.remaining)
            &&& without.changed_from(side, order.price_cents, -order.remaining)
        },
        None => without == side,
    }
}

/// Self-exclusion: the quote is the one for the book from which the own orders are taken out, as if
/// there were none.
pub proof fn law_own_orders_do_not_move_the_quote(
    strategy: Strategy,
    book: OrderBook,
    orders: Seq<OrderModel>,
    ticker: Seq<char>,
    risk: RiskManager,
    trend: TrendDirection,
    without: OrderBook,
)
    requires
        book.wf(),
        taken_out(book.yes_bids, first_working(orders, ticker, "yes"@), without.yes_bids),
        taken_out(book.no_bids, first_working(orders, ticker, "no"@), without.no_bids),
        without.initialized == book.initialized,
    ensures
        strategy.desired_quote(book, orders, ticker, risk, trend) == strategy.desired_quote(
            without,
            Seq::empty(),
            ticker,
            risk,
            trend,
        ),
{
    assert(no_own_orders(Seq::empty(), ticker));
    lemma_no_own_orders(Seq::empty(), ticker);
    if let Some(order) = first_working(orders, ticker, "yes"@) {
        law_own_order_is_left_out(book.yes_bids, order, without.yes_bids);
    }
    if let Some(order) = first_working(orders, ticker, "no"@) {
        law_own_order_is_left_out(book.no_bids, order, without.no_bids);
    }
}

/// A quote can be computed for every position but the lowest integer wherever the skew threshold is
/// positive.
pub proof fn law_quote_can_be_computed(
    strategy: Strategy,
    book: OrderBook,
    orders: Seq<OrderModel>,
    ticker: Seq<char>,
    risk: RiskManager,
    trend: TrendDirection,
)
    requires
        book.wf(),
        strategy.config.inventory_skew_threshold > 0,
        risk.inventory > i64::MIN,
    ensures
        strategy.quote_fits(book, orders, ticker, risk, trend),
{
    lemma_market_range(book, orders, ticker);
    let market = Strategy::market(book, orders, ticker);
    if two_sided(market) {
        law_positive_threshold_always_fits(
            market,
            trend,
            risk.inventory as int,
            strategy.config.inventory_skew_threshold as int,
        );
    }
}

/// The own order on a side is the first of the orders that buy that side in the market and are
/// there or on their way there; there is none exactly where none of them does.
pub proof fn law_own_order_is_the_first(orders: Seq<OrderModel>, ticker: Seq<char>, side: Seq<char>)
    ensures
        match first_working(orders, ticker, side) {
            Some(order) => exists|i: int|
                0 <= i < orders.len() && #[trigger] orders[i] == order && buys(order, ticker, side) && (forall|j: int|
                    0 <= j < i ==> !buys(#[trigger] orders[j], ticker, side)),
            None => forall|i: int| 0 <= i < orders.len() ==> !buys(#[trigger] orders[i], ticker, side),
        },
    decreases orders.len(),
{
    if orders.len() > 0 && !buys(orders[0], ticker, side) {
        let rest = orders.skip(1);
        law_own_order_is_the_first(rest, ticker, side);
        match first_working(rest, ticker, side) {
            Some(order) => {
                let i = choose|i: int|
                    0 <= i < rest.len() && #[trigger] rest[i] == order && buys(order, ticker, side) && (forall|j: int|
                        0 <= j < i ==> !buys(#[trigger] rest[j], ticker, side));
                assert(orders[i + 1] == order);
                assert forall|j: int| 0 <= j < i + 1 implies !buys(#[trigger] orders[j], ticker, side) by {
                    if j > 0 {
                        assert(rest[j - 1] == orders[j]);
                    }
                }
            },
            None => {
                assert forall|i: int| 0 <= i < orders.len() implies !buys(#[trigger] orders[i], ticker, side) by {
                    if i > 0 {
                        assert(rest[i - 1] == orders[i]);
                    }
                }
            },
        }
    } else if orders.len() > 0 {
        assert(orders[0] == first_working(orders, ticker, side)->0);
    }
}

proof fn lemma_no_own_orders(orders: Seq<OrderModel>, ticker: Seq<char>)
    requires
        no_own_orders(orders, ticker),
    ensures
        first_working(orders, ticker, "yes"@) is None,
        first_working(orders, ticker, "no"@) is None,
{
    law_own_order_is_the_first(orders, ticker, "yes"@);
    law_own_order_is_the_first(orders, ticker, "no"@);
}

proof fn lemma_whole_steps(held: int, step: int, moved: int)
    requires
        held > 0,
        moves_by(held, step, moved),
    ensures
        skew(held, step) == moved,
{
    if step < 0 {
        let back = -step;
        let times = -moved;
        assert(moved * step == times * back && (moved - 1) * step == (times + 1) * back) by (nonlinear_arith)
            requires
                back == -step,
                times == -moved,
        ;
        assert(held / back == times) by (nonlinear_arith)
            requires
                times * back <= held < (times + 1) * back,
                back > 0,
        ;
        assert(held / step == -(held / back)) by (nonlinear_arith)
            requires
                held > 0,
                step < 0,
                back == -step,
        ;
    } else {
        let whole = held / step;
        assert(whole * step <= held < (whole + 1) * step && whole >= 0) by (nonlinear_arith)
            requires
                held > 0,
                step > 0,
                whole == held / step,
        ;
        if moved < 2 {
            assert(whole == moved) by (nonlinear_arith)
                requires
                    whole * step <= held < (whole + 1) * step,
                    moved * step <= held < (moved + 1) * step,
                    step > 0,
            ;
        } else {
            assert(whole >= 2) by (nonlinear_arith)
                requires
                    held < (whole + 1) * step,
                    2 * step <= held,
                    step > 0,
            ;
        }
    }
}

proof fn lemma_others_range(side: BookSide, mine: Option<OrderModel>)
    requires
        side.wf(),
    ensures
        0 <= others_best(side, mine) <= 99,
{
    assert(side.occupied != 0 ==> has_bit(side.occupied, side.best_bid as int));
    lemma_highest_below(side.occupied, side.best_bid as int);
}

proof fn lemma_market_range(book: OrderBook, orders: Seq<OrderModel>, ticker: Seq<char>)
    requires
        book.wf(),
    ensures
        two_sided(Strategy::market(book, orders, ticker)) ==> tradable_market(Strategy::market(book, orders, ticker)),
{
    lemma_others_range(book.yes_bids, first_working(orders, ticker, "yes"@));
    lemma_others_range(book.no_bids, first_working(orders, ticker, "no"@));
}

proof fn lemma_skew_range(contracts: int, step: int)
    requires
        contracts > 0,
        step > 0,
    ensures
        0 <= skew(contracts, step) <= 2,
{
    assert(0 <= contracts / step) by (nonlinear_arith)
        requires
            contracts > 0,
            step > 0,
    ;
}

} // verus!
