//! What holds of the limits and of the pairing of contracts.

use crate::risk::{RiskManager, RiskState};
use vstd::prelude::*;

verus! {

/// Trading goes on exactly while the market maker is connected and not halted, its position is short
/// of the hard cap on both sides, and its loss is short of the day's cap.
pub proof fn law_trading_goes_on_within_limits(risk: RiskManager)
    ensures
        risk.state() == RiskState::Normal <==> {
            &&& risk.ws_connected
            &&& risk.halted is None
            &&& -risk.hard_inventory_cap < risk.inventory < risk.hard_inventory_cap
            &&& risk.daily_pnl_cents > -risk.daily_loss_cap_cents
        },
        risk.state() == RiskState::Halted <==> risk.state() != RiskState::Normal,
{
}

/// A bid may add to a position that is below the limit, an offer to one that is above its negative;
/// a position strictly between leaves room for both.
pub proof fn law_room_on_each_side(risk: RiskManager)
    ensures
        risk.may_bid() <==> risk.inventory < risk.max_inventory,
        risk.may_ask() <==> risk.inventory > -risk.max_inventory,
{
}

/// A fill sets the position to what the exchange reports and leaves limits, connection and halt as
/// they are. A fill of no contracts, or at no price from 0 to 100, moves no money.
pub proof fn law_fill_sets_the_position(
    before: RiskManager,
    after: RiskManager,
    side: Seq<char>,
    action: Seq<char>,
    yes_price: int,
    count: int,
    position: i64,
)
    requires
        after.filled_from(before, side, action, yes_price, count, position),
    ensures
        after.inventory == position,
        after.max_inventory == before.max_inventory,
        after.hard_inventory_cap == before.hard_inventory_cap,
        after.daily_loss_cap_cents == before.daily_loss_cap_cents,
        after.ws_connected == before.ws_connected,
        after.last_book_ms == before.last_book_ms,
        after.halted == before.halted,
        count <= 0 || yes_price < 0 || yes_price > 100 ==> {
            &&& after.daily_pnl_cents == before.daily_pnl_cents
            &&& after.pairs_completed == before.pairs_completed
            &&& after.open_contracts == before.open_contracts
            &&& after.open_cost_cents == before.open_cost_cents
        },
{
}

/// A fill of contracts, as long as the machine's integers hold the sums. Buying YES or selling NO
/// brings YES contracts at the price of YES; selling YES or buying NO brings NO contracts at the
/// complement. They complete pairs with open contracts of the other side, as many as there are.
/// No money is lost on the way: profit less the cost of what is open changes by 100 cents for each
/// pair less what was paid. What stays open costs what it cost, in proportion and rounded up to a cent.
pub proof fn law_fill_is_paired(
    before: RiskManager,
    after: RiskManager,
    side: Seq<char>,
    action: Seq<char>,
    yes_price: int,
    count: int,
    position: i64,
)
    requires
        before.wf(),
        after.filled_from(before, side, action, yes_price, count, position),
        count > 0,
        0 <= yes_price <= 100,
        before.open_contracts + count <= i64::MAX,
        before.open_contracts - count >= i64::MIN,
        before.open_cost_cents + 100 * count <= i64::MAX,
        before.daily_pnl_cents + 100 * count <= i64::MAX,
        before.daily_pnl_cents - before.open_cost_cents >= i64::MIN,
        before.pairs_completed + count <= i64::MAX,
    ensures
        ({
            let yes = if side == "yes"@ {
                action == "buy"@
            } else {
                action != "buy"@
            };
            let unit = if yes {
                yes_price
            } else {
                100 - yes_price
            };
            let opposite = if yes && before.open_contracts < 0 {
                -before.open_contracts
            } else if !yes && before.open_contracts > 0 {
                before.open_contracts as int
            } else {
                0
            };
            let pairs = if count < opposite {
                count
            } else {
                opposite
            };
            &&& after.open_contracts == (if yes {
                before.open_contracts + count
            } else {
                before.open_contracts - count
            })
            &&& after.pairs_completed == before.pairs_completed + pairs
            &&& after.daily_pnl_cents - after.open_cost_cents == before.daily_pnl_cents - before.open_cost_cents + 100
                * pairs - count * unit
            &&& opposite == 0 ==> after.open_cost_cents == before.open_cost_cents + count * unit
            &&& 0 < opposite <= count ==> after.open_cost_cents == (count - opposite) * unit
            &&& count < opposite ==> {
                &&& after.open_cost_cents * opposite >= before.open_cost_cents * (opposite - count)
                &&& (after.open_cost_cents - 1) * opposite < before.open_cost_cents * (opposite - count)
            }
        }),
{
    let yes = (side == "yes"@) == (action == "buy"@);
    let unit = if yes {
        yes_price
    } else {
        100 - yes_price
    };
    let cost = before.open_cost_cents as int;
    let opposite = if yes && before.open_contracts < 0 {
        -before.open_contracts
    } else if !yes && before.open_contracts > 0 {
        before.open_contracts as int
    } else {
        0
    };
    let pairs = if count < opposite {
        count
    } else {
        opposite
    };
    let basis = if opposite > 0 {
        cost * pairs / opposite
    } else {
        0
    };
    if opposite > 0 {
        assert(0 <= basis <= cost && basis * opposite <= cost * pairs < (basis + 1) * opposite) by (nonlinear_arith)
            requires
                0 <= cost,
                0 <= pairs <= opposite,
                opposite > 0,
                basis == cost * pairs / opposite,
        ;
        if pairs == opposite {
            assert(basis == cost) by (nonlinear_arith)
                requires
                    opposite > 0,
                    basis == cost * opposite / opposite,
            ;
        } else {
            assert((cost - basis) * opposite >= cost * (opposite - count) && (cost - basis - 1) * opposite < cost * (opposite
                - count)) by (nonlinear_arith)
                requires
                    basis * opposite <= cost * count < (basis + 1) * opposite,
            ;
        }
    }
    assert(0 <= (count - pairs) * unit <= 100 * count) by (nonlinear_arith)
        requires
            0 <= count - pairs <= count,
            0 <= unit <= 100,
    ;
    assert(0 <= pairs * (100 - unit) <= 100 * count) by (nonlinear_arith)
        requires
            0 <= pairs <= count,
            0 <= 100 - unit <= 100,
    ;
    assert(pairs * (100 - unit) - (count - pairs) * unit == 100 * pairs - count * unit) by (nonlinear_arith);
    assert((count - 0) * unit == count * unit);
    assert(count == pairs ==> (count - pairs) * unit == 0) by (nonlinear_arith);
}

} // verus!
