//! The limits within which the market maker trades.

use crate::config::Config;
use crate::text::same_text;
use vstd::prelude::*;

verus! {

#[derive(Debug, Clone, Copy, PartialEq, Eq, Structural)]
pub enum RiskState {
    Normal,
    Halted,
}

/// Why trading was stopped for good.
#[derive(Debug, Clone, Copy, PartialEq, Eq, Structural)]
pub enum HaltReason {
    SequenceGap,
    WsChannelClosed,
}

impl HaltReason {
    pub open spec fn named(self) -> Seq<char> {
        match self {
            HaltReason::SequenceGap => "sequence_gap"@,
            HaltReason::WsChannelClosed => "ws_channel_closed"@,
        }
    }

    /// The reason, in a word for the log.
    pub fn name(self) -> (r: &'static str)
        ensures
            r@ == self.named(),
    {
        match self {
            HaltReason::SequenceGap => "sequence_gap",
            HaltReason::WsChannelClosed => "ws_channel_closed",
        }
    }
}

/// The contracts of the day that are not paired yet, and what the pairs came to. A pair is one
/// YES and one NO contract: together they pay 100 cents.
#[verifier::ext_equal]
pub struct PairBook {
    /// Unpaired contracts: YES where positive, NO where negative.
    pub open: int,
    /// What the unpaired contracts cost.
    pub cost: int,
    pub pnl: int,
    pub pairs: int,
}

pub open spec fn saturated(x: int) -> int {
    if x > i64::MAX {
        i64::MAX as int
    } else if x < i64::MIN {
        i64::MIN as int
    } else {
        x
    }
}

/// The book after `count` contracts were bought for `unit` cents each, YES contracts where `yes`.
/// They are paired with unpaired contracts of the other side, at the average cost of those, as
/// far as there are any; the rest stays unpaired.
pub open spec fn paired(book: PairBook, yes: bool, unit: int, count: int) -> PairBook {
    let against = if yes {
        -book.open
    } else {
        book.open
    };
    let held = if against > 0 {
        against
    } else {
        0
    };
    let pairs = if count < held {
        count
    } else {
        held
    };
    let basis = if held > 0 {
        book.cost * pairs / held
    } else {
        0
    };
    PairBook {
        open: saturated(if yes {
            book.open + count
        } else {
            book.open - count
        }),
        cost: saturated(book.cost - basis + (count - pairs) * unit),
        pnl: saturated(book.pnl + pairs * (100 - unit) - basis),
        pairs: saturated(book.pairs + pairs),
    }
}

/// Whether a fill brings YES contracts: YES bought or NO sold.
pub open spec fn brings_yes(side: Seq<char>, action: Seq<char>) -> bool {
    (side == "yes"@) == (action == "buy"@)
}

/// Position, profit and limits.
#[derive(Debug, Clone, Copy)]
pub struct RiskManager {
    /// YES contracts held, or NO contracts where negative.
    pub inventory: i64,
    pub daily_pnl_cents: i64,
    pub pairs_completed: i64,
    pub open_contracts: i64,
    pub open_cost_cents: i64,
    pub max_inventory: i64,
    pub hard_inventory_cap: i64,
    pub daily_loss_cap_cents: i64,
    pub ws_connected: bool,
    /// When the book last changed, in milliseconds on the caller's clock.
    pub last_book_ms: Option<u64>,
    /// Why trading was last stopped for good, where it was.
    pub halted: Option<HaltReason>,
}

fn saturate(x: i128) -> (r: i64)
    ensures
        r == saturated(x as int),
{
    if x > i64::MAX as i128 {
        i64::MAX
    } else if x < i64::MIN as i128 {
        i64::MIN
    } else {
        x as i64
    }
}

impl RiskManager {
    pub open spec fn wf(&self) -> bool {
        self.open_cost_cents >= 0
    }

    pub open spec fn pair_book(&self) -> PairBook {
        PairBook {
            open: self.open_contracts as int,
            cost: self.open_cost_cents as int,
            pnl: self.daily_pnl_cents as int,
            pairs: self.pairs_completed as int,
        }
    }

    /// Whether these are the limits `before` after a fill: the position is the one that the
    /// exchange reports, and the contracts are paired.
    pub open spec fn filled_from(
        &self,
        before: RiskManager,
        side: Seq<char>,
        action: Seq<char>,
        yes_price: int,
        count: int,
        post_position: i64,
    ) -> bool {
        let yes = brings_yes(side, action);
        let unit = if yes {
            yes_price
        } else {
            100 - yes_price
        };
        &&& self.pair_book() == (if count > 0 && 0 <= yes_price <= 100 {
            paired(before.pair_book(), yes, unit, count)
        } else {
            before.pair_book()
        })
        &&& *self == (RiskManager {
            inventory: post_position,
            daily_pnl_cents: self.daily_pnl_cents,
            pairs_completed: self.pairs_completed,
            open_contracts: self.open_contracts,
            open_cost_cents: self.open_cost_cents,
            ..before
        })
    }

    /// Whether the position has reached the hard cap, on either side.
    pub open spec fn over_inventory(&self) -> bool {
        self.inventory >= self.hard_inventory_cap || -self.inventory >= self.hard_inventory_cap
    }

    /// Whether the day's loss has reached its cap.
    pub open spec fn over_loss(&self) -> bool {
        -self.daily_pnl_cents >= self.daily_loss_cap_cents
    }

    /// Trading is halted after a halt, without a connection, and while a hard limit is reached.
    pub open spec fn state(&self) -> RiskState {
        if self.halted is Some || !self.ws_connected || self.over_inventory() || self.over_loss() {
            RiskState::Halted
        } else {
            RiskState::Normal
        }
    }

    pub open spec fn may_bid(&self) -> bool {
        self.inventory < self.max_inventory
    }

    pub open spec fn may_ask(&self) -> bool {
        -self.inventory < self.max_inventory
    }

    pub fn new(config: &Config) -> (r: Self)
        ensures
            r == (RiskManager {
                inventory: 0,
                daily_pnl_cents: 0,
                pairs_completed: 0,
                open_contracts: 0,
                open_cost_cents: 0,
                max_inventory: config.max_inventory,
                hard_inventory_cap: config.hard_inventory_cap,
                daily_loss_cap_cents: config.daily_loss_cap_cents,
                ws_connected: false,
                last_book_ms: None,
                halted: None,
            }),
            r.wf(),
    {
        Self {
            inventory: 0,
            daily_pnl_cents: 0,
            pairs_completed: 0,
            open_contracts: 0,
            open_cost_cents: 0,
            max_inventory: config.max_inventory,
            hard_inventory_cap: config.hard_inventory_cap,
            daily_loss_cap_cents: config.daily_loss_cap_cents,
            ws_connected: false,
            last_book_ms: None,
            halted: None,
        }
    }

    /// Starts from the profit of the day so far.
    pub fn carry_daily_pnl(&mut self, pnl_cents: i64)
        ensures
            *final(self) == (RiskManager { daily_pnl_cents: pnl_cents, ..*old(self) }),
    {
        self.daily_pnl_cents = pnl_cents;
    }

    pub fn set_ws_connected(&mut self, connected: bool)
        ensures
            *final(self) == (RiskManager { ws_connected: connected, ..*old(self) }),
    {
        self.ws_connected = connected;
    }

    /// Notes that the book has changed at `now_ms`.
    pub fn book_updated(&mut self, now_ms: u64)
        ensures
            *final(self) == (RiskManager { last_book_ms: Some(now_ms), ..*old(self) }),
    {
        self.last_book_ms = Some(now_ms);
    }

    /// How long ago the book last changed, where it has; 0 where that is yet to come.
    pub fn book_age_ms(&self, now_ms: u64) -> (r: Option<u64>)
        ensures
            (match r {
                Some(age) => Some(age as int),
                None => None,
            }) == (match self.last_book_ms {
                Some(then) => Some(if now_ms > then {
                    now_ms - then
                } else {
                    0
                }),
                None => None,
            }),
    {
        match self.last_book_ms {
            Some(then) => Some(
                if now_ms > then {
                    now_ms - then
                } else {
                    0
                },
            ),
            None => None,
        }
    }

    /// Stops trading for good.
    pub fn halt(&mut self, reason: HaltReason)
        ensures
            *final(self) == (RiskManager { halted: Some(reason), ..*old(self) }),
    {
        self.halted = Some(reason);
    }

    /// Takes over the position that the exchange reports with a fill, and pairs the contracts
    /// that it brought. A fill of no contracts, or at no price from 0 to 100, moves no money.
    pub fn record_fill(&mut self, side: &str, action: &str, yes_price: i64, count: i64, post_position: i64)
        requires
            old(self).wf(),
        ensures
            final(self).wf(),
            final(self).filled_from(*old(self), side@, action@, yes_price as int, count as int, post_position),
    {
        self.inventory = post_position;
        if count <= 0 || yes_price < 0 || yes_price > 100 {
            return ;
        }
        let yes: bool = same_text(side, "yes") == same_text(action, "buy");
        let unit: i128 = if yes {
            yes_price as i128
        } else {
            100 - yes_price as i128
        };
        let open: i128 = self.open_contracts as i128;
        let cost: i128 = self.open_cost_cents as i128;
        let bought: i128 = count as i128;
        let against: i128 = if yes {
            -open
        } else {
            open
        };
        let held: i128 = if against > 0 {
            against
        } else {
            0
        };
        let pairs: i128 = if bought < held {
            bought
        } else {
            held
        };
        proof {
            assert(0 <= cost * pairs <= 0x8000_0000_0000_0000 * 0x8000_0000_0000_0000) by (nonlinear_arith)
                requires
                    0 <= cost <= 0x8000_0000_0000_0000,
                    0 <= pairs <= 0x8000_0000_0000_0000,
            ;
        }
        let basis: i128 = if held > 0 {
            cost * pairs / held
        } else {
            0
        };
        proof {
            if held > 0 {
                assert(0 <= (cost * pairs) / (held as int) <= cost) by (nonlinear_arith)
                    requires
                        0 <= cost,
                        0 <= pairs <= held,
                        held > 0,
                ;
            }
            assert(0 <= (bought - pairs) * unit <= 0x8000_0000_0000_0000 * 100) by (nonlinear_arith)
                requires
                    0 <= bought - pairs <= 0x8000_0000_0000_0000,
                    0 <= unit <= 100,
            ;
            assert(0 <= pairs * (100 - unit) <= 0x8000_0000_0000_0000 * 100) by (nonlinear_arith)
                requires
                    0 <= pairs <= 0x8000_0000_0000_0000,
                    0 <= 100 - unit <= 100,
            ;
        }
        self.open_contracts = saturate(if yes {
            open + bought
        } else {
            open - bought
        });
        self.open_cost_cents = saturate(cost - basis + (bought - pairs) * unit);
        self.daily_pnl_cents = saturate(self.daily_pnl_cents as i128 + pairs * (100 - unit) - basis);
        self.pairs_completed = saturate(self.pairs_completed as i128 + pairs);
    }

    /// The state of trading at this moment.
    pub fn tick(&self) -> (r: RiskState)
        ensures
            r == self.state(),
    {
        let inventory: i128 = self.inventory as i128;
        let cap: i128 = self.hard_inventory_cap as i128;
        if self.halted.is_some() || !self.ws_connected || inventory >= cap || -inventory >= cap || -(self.daily_pnl_cents as i128)
            >= self.daily_loss_cap_cents as i128 {
            RiskState::Halted
        } else {
            RiskState::Normal
        }
    }

    pub fn should_quote(&self) -> (r: bool)
        ensures
            r == (self.state() == RiskState::Normal),
    {
        self.tick() == RiskState::Normal
    }

    pub fn can_bid(&self) -> (r: bool)
        ensures
            r == self.may_bid(),
    {
        self.inventory < self.max_inventory
    }

    pub fn can_ask(&self) -> (r: bool)
        ensures
            r == self.may_ask(),
    {
        -(self.inventory as i128) < self.max_inventory as i128
    }
}

} // verus!
