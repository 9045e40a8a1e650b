//! The order book of one binary market: resting bids for YES and for NO, by price in cents.

use crate::bits::{has_bit, is_top_bit, lemma_clear_bit, lemma_empty_mask, lemma_low_bits, lemma_set_bit, top_bit};
use std::time::Instant;
use vstd::prelude::*;

verus! {

const MAX_PRICE: usize = 100;

/// `std::time::Instant`, carried as an opaque moment.
#[verifier::external_type_specification]
#[verifier::external_body]
pub struct ExInstant(Instant);

/// `std::time::Instant::now`: some moment; nothing is claimed of which.
pub assume_specification[ Instant::now ]() -> Instant
;

#[derive(Debug, Clone, Copy, PartialEq, Eq, Structural)]
pub enum Side {
    Yes,
    No,
}

/// The resting bids on one side of the market.
#[derive(Debug)]
pub struct BookSide {
    pub quantities: [i64; MAX_PRICE],
    /// Bitmask: bit N is set if quantities[N] > 0. Prices 1-99 use bits 1-99.
    pub occupied: u128,
    pub best_bid: i64,
    pub total_qty: i64,
}

impl Clone for BookSide {
    fn clone(&self) -> (r: Self)
        ensures
            r == *self,
    {
        Self {
            quantities: self.quantities,
            occupied: self.occupied,
            best_bid: self.best_bid,
            total_qty: self.total_qty,
        }
    }
}

/// Whether `price` is a price that a contract can trade at.
pub open spec fn tradable(price: int) -> bool {
    1 <= price <= 99
}

/// The quantity that the last of `levels` at `price` gives, or 0 where none is at `price`.
pub open spec fn last_quantity(levels: Seq<(i64, i64)>, price: int) -> int
    decreases levels.len(),
{
    if levels.len() == 0 {
        0
    } else if levels.last().0 == price {
        levels.last().1 as int
    } else {
        last_quantity(levels.drop_last(), price)
    }
}

/// The sum of the quantities of those of `levels` that are at a tradable price.
pub open spec fn listed_total(levels: Seq<(i64, i64)>) -> int
    decreases levels.len(),
{
    if levels.len() == 0 {
        0
    } else {
        listed_total(levels.drop_last()) + if tradable(levels.last().0 as int) {
            levels.last().1 as int
        } else {
            0
        }
    }
}

/// Whether the running total of `levels` stays within the machine's integers.
pub open spec fn levels_fit(levels: Seq<(i64, i64)>) -> bool {
    forall|k: int|
        0 <= k <= levels.len() ==> i64::MIN <= listed_total(#[trigger] levels.take(k)) <= i64::MAX
}

/// The quantity left at a price that held `quantity` before a change by `delta`.
pub open spec fn changed_quantity(quantity: int, delta: int) -> int {
    if quantity + delta > 0 {
        quantity + delta
    } else {
        0
    }
}

/// The sum of the quantities at prices 1 to `upto`.
pub open spec fn quantity_sum(quantities: Seq<i64>, upto: int) -> int
    decreases upto,
{
    if upto <= 0 {
        0
    } else {
        quantity_sum(quantities, upto - 1) + quantities[upto]
    }
}

impl BookSide {
    /// What holds of every side: the tradable prices with a positive quantity are marked, no
    /// others are, and the best bid is the highest marked price, or 0 where none is marked.
    pub open spec fn wf(&self) -> bool {
        &&& forall|n: int| #[trigger] has_bit(self.occupied, n) ==> self.filled(n)
        &&& forall|n: int| #[trigger] self.filled(n) ==> has_bit(self.occupied, n)
        &&& is_top_bit(self.occupied, self.best_bid as int)
    }

    /// Whether there is a positive quantity at `price`.
    pub open spec fn filled(&self, price: int) -> bool {
        tradable(price) && self.quantities@[price] > 0
    }

    /// Whether the total, too, agrees with the quantities: it is their sum.
    pub open spec fn consistent(&self) -> bool {
        &&& self.wf()
        &&& self.total_qty == quantity_sum(self.quantities@, 99)
    }

    /// Whether the side holds what a snapshot of `levels` says, and nothing else.
    pub open spec fn holds(&self, levels: Seq<(i64, i64)>) -> bool {
        &&& self.wf()
        &&& self.quantities@[0] == 0
        &&& forall|n: int| tradable(n) ==> #[trigger] self.quantities@[n] == last_quantity(levels, n)
        &&& forall|n: int|
            #[trigger] has_bit(self.occupied, n) <==> tradable(n) && last_quantity(levels, n) > 0
        &&& self.total_qty == listed_total(levels)
    }

    /// Whether a change of the quantity at `price` by `delta` stays within the machine's integers.
    pub open spec fn delta_fits(&self, price: int, delta: int) -> bool {
        tradable(price) ==> {
            let quantity = self.quantities@[price] as int;
            let gain = changed_quantity(quantity, delta) - quantity;
            &&& i64::MIN <= quantity + delta <= i64::MAX
            &&& gain <= i64::MAX
            &&& i64::MIN <= self.total_qty + gain <= i64::MAX
        }
    }

    /// Whether the side is `before` with the quantity at `price` changed by `delta`.
    pub open spec fn changed_from(&self, before: BookSide, price: int, delta: int) -> bool {
        if tradable(price) {
            let quantity = before.quantities@[price] as int;
            let left = changed_quantity(quantity, delta);
            &&& self.wf()
            &&& self.quantities@ == before.quantities@.update(price, left as i64)
            &&& self.total_qty == before.total_qty + left - quantity
            &&& forall|n: int|
                #[trigger] has_bit(self.occupied, n) <==> if n == price {
                    left > 0
                } else {
                    has_bit(before.occupied, n)
                }
        } else {
            *self == before
        }
    }

    pub fn new() -> (r: Self)
        ensures
            r.holds(Seq::empty()),
            r.consistent(),
            r.best_bid == 0,
    {
        let r = Self { quantities: [0; MAX_PRICE], occupied: 0, best_bid: 0, total_qty: 0 };
        proof {
            lemma_empty_mask(0);
            lemma_zero_sum(r.quantities@, 99);
        }
        r
    }

    fn recompute_best_bid(&mut self)
        ensures
            *final(self) == (BookSide { best_bid: final(self).best_bid, ..*old(self) }),
            is_top_bit(final(self).occupied, final(self).best_bid as int),
    {
        self.best_bid = top_bit(self.occupied) as i64;
    }

    /// Replaces the side by the levels of a snapshot.
    pub fn apply_snapshot(&mut self, levels: &[(i64, i64)])
        requires
            levels_fit(levels@),
        ensures
            final(self).holds(levels@),
    {
        self.quantities = [0; MAX_PRICE];
        self.occupied = 0;
        self.total_qty = 0;
        proof {
            lemma_empty_mask(0);
        }
        let mut i: usize = 0;
        while i < levels.len()
            invariant
                i <= levels.len(),
                levels_fit(levels@),
                self.quantities@[0] == 0,
                forall|n: int| tradable(n) ==> #[trigger] self.quantities@[n] == last_quantity(levels@.take(i as int), n),
                forall|n: int|
                    #[trigger] has_bit(self.occupied, n) <==> tradable(n) && last_quantity(levels@.take(i as int), n) > 0,
                self.total_qty == listed_total(levels@.take(i as int)),
            decreases levels.len() - i,
        {
            let price: i64 = levels[i].0;
            let qty: i64 = levels[i].1;
            let ghost seen = levels@.take(i as int);
            let ghost next = levels@.take(i + 1);
            proof {
                assert(next.drop_last() =~= seen);
                assert(next.last() == (price, qty));
            }
            if price >= 1 && price <= 99 {
                self.quantities[price as usize] = qty;
                self.total_qty = self.total_qty + qty;
                proof {
                    lemma_set_bit(self.occupied, price as u128);
                    lemma_clear_bit(self.occupied, price as u128);
                }
                if qty > 0 {
                    self.occupied = self.occupied | (1u128 << (price as u128));
                } else {
                    // A price that an earlier level marked is not marked once it holds nothing.
                    self.occupied = self.occupied & !(1u128 << (price as u128));
                }
            }
            i = i + 1;
        }
        proof {
            assert(levels@.take(levels@.len() as int) =~= levels@);
        }
        self.recompute_best_bid();
    }

    /// Changes the quantity at `price` by `delta`, never below zero.
    pub fn apply_delta(&mut self, price: i64, delta: i64)
        requires
            old(self).wf(),
            old(self).delta_fits(price as int, delta as int),
        ensures
            final(self).changed_from(*old(self), price as int, delta as int),
    {
        if price < 1 || price > 99 {
            return ;
        }
        let idx: usize = price as usize;
        let old_qty: i64 = self.quantities[idx];
        let moved: i64 = old_qty + delta;
        let new_qty: i64 = if moved > 0 {
            moved
        } else {
            0
        };
        self.quantities[idx] = new_qty;
        self.total_qty = self.total_qty + (new_qty - old_qty);
        proof {
            lemma_set_bit(self.occupied, price as u128);
            lemma_clear_bit(self.occupied, price as u128);
            lemma_empty_mask(self.occupied);
        }
        if new_qty > 0 {
            self.occupied = self.occupied | (1u128 << (idx as u128));
        } else {
            self.occupied = self.occupied & !(1u128 << (idx as u128));
        }
        proof {
            lemma_empty_mask(self.occupied);
        }
        if new_qty == 0 && price == self.best_bid {
            self.recompute_best_bid();
        } else if new_qty > 0 && price > self.best_bid {
            self.best_bid = price;
        }
        proof {
            let before = *old(self);
            assert(self.quantities@ =~= before.quantities@.update(price as int, new_qty));
            assert forall|n: int| #[trigger] has_bit(self.occupied, n) <==> if n == price {
                new_qty > 0
            } else {
                has_bit(before.occupied, n)
            } by {}
            assert forall|n: int| #[trigger] has_bit(self.occupied, n) implies self.filled(n) by {
                assert(n != price ==> before.filled(n));
            }
            assert forall|n: int| #[trigger] self.filled(n) implies has_bit(self.occupied, n) by {
                assert(n != price ==> before.filled(n));
            }
            if new_qty > 0 {
                assert(has_bit(self.occupied, price as int));
            } else if price != before.best_bid {
                if before.occupied != 0 {
                    assert(has_bit(self.occupied, before.best_bid as int));
                } else {
                    lemma_empty_mask(before.occupied);
                }
            }
        }
    }

    /// The quantity at the best bid.
    pub fn best_bid_qty(&self) -> (r: i64)
        ensures
            r == (if tradable(self.best_bid as int) {
                self.quantities@[self.best_bid as int]
            } else {
                0
            }),
    {
        if self.best_bid >= 1 && self.best_bid <= 99 {
            self.quantities[self.best_bid as usize]
        } else {
            0
        }
    }

    /// The highest marked price below `below_price`, or 0 where there is none.
    pub fn best_bid_below(&self, below_price: i64) -> (r: i64)
        requires
            below_price < 128,
        ensures
            r == highest_below(self.occupied, below_price as int),
    {
        if below_price <= 1 {
            return 0;
        }
        proof {
            let n = below_price as u128;
            assert(1u128 << n >= 1) by (bit_vector)
                requires
                    n < 128,
            ;
        }
        let low: u128 = (1u128 << (below_price as u128)) - 1;
        let mask: u128 = self.occupied & low;
        proof {
            lemma_low_bits(self.occupied, low, below_price as u128);
            lemma_empty_mask(mask);
        }
        let r: u32 = top_bit(mask);
        proof {
            assert forall|n: int| n < below_price && #[trigger] has_bit(self.occupied, n) implies has_bit(mask, n)
                && n <= r by {
                assert(has_bit(mask, n));
            }
            if mask != 0 {
                assert(has_bit(mask, r as int));
            }
            lemma_highest_below(self.occupied, below_price as int);
        }
        r as i64
    }

    /// The `n` best levels, best first.
    pub fn top_n(&self, n: usize) -> (result: Vec<(i64, i64)>)
        requires
            self.wf(),
        ensures
            self.best_levels(n as int, result@),
    {
        let mut result: Vec<(i64, i64)> = Vec::new();
        let mut remaining: u128 = self.occupied;
        let mut left: usize = n;
        while left > 0 && remaining != 0
            invariant
                self.wf(),
                left <= n,
                result@.len() == n - left,
                forall|m: int| #[trigger] has_bit(remaining, m) ==> has_bit(self.occupied, m),
                forall|m: int| #[trigger] has_bit(self.occupied, m) && !has_bit(remaining, m) ==> lists(result@, m),
                forall|m: int, i: int|
                    #[trigger] has_bit(remaining, m) && 0 <= i < result@.len() ==> m < (#[trigger] result@[i]).0,
                forall|i: int| 0 <= i < result@.len() ==> self.is_level(#[trigger] result@[i]),
                forall|i: int, j: int| 0 <= i < j < result@.len() ==> result@[i].0 > result@[j].0,
            decreases left,
        {
            let p: u32 = top_bit(remaining);
            proof {
                lemma_clear_bit(remaining, p as u128);
                assert(has_bit(self.occupied, p as int));
            }
            let ghost before = result@;
            result.push((p as i64, self.quantities[p as usize]));
            let ghost held = remaining;
            remaining = remaining & !(1u128 << (p as u128));
            left = left - 1;
            proof {
                assert(result@[before.len() as int].0 == p);
                assert forall|m: int| #[trigger] has_bit(self.occupied, m) && !has_bit(remaining, m) implies lists(
                    result@,
                    m,
                ) by {
                    if m == p {
                        assert(result@[before.len() as int].0 == m);
                    } else {
                        assert(lists(before, m));
                        let i = choose|i: int| 0 <= i < before.len() && (#[trigger] before[i]).0 == m;
                        assert(result@[i] == before[i]);
                    }
                }
            }
        }
        proof {
            lemma_empty_mask(remaining);
        }
        result
    }

    /// Whether `level` is a marked price with the quantity at it.
    pub open spec fn is_level(&self, level: (i64, i64)) -> bool {
        has_bit(self.occupied, level.0 as int) && level.1 == self.quantities@[level.0 as int]
    }

    /// Whether `levels` are the `n` best levels, or all where there are fewer, best first.
    pub open spec fn best_levels(&self, n: int, levels: Seq<(i64, i64)>) -> bool {
        &&& levels.len() <= n
        &&& forall|i: int| 0 <= i < levels.len() ==> self.is_level(#[trigger] levels[i])
        &&& forall|i: int, j: int| 0 <= i < j < levels.len() ==> levels[i].0 > levels[j].0
        &&& forall|m: int|
            #[trigger] has_bit(self.occupied, m) ==> lists(levels, m) || (levels.len() == n && forall|i: int|
                0 <= i < levels.len() ==> m < (#[trigger] levels[i]).0)
    }
}

/// Whether one of `levels` is at `price`.
pub open spec fn lists(levels: Seq<(i64, i64)>, price: int) -> bool {
    exists|i: int| 0 <= i < levels.len() && (#[trigger] levels[i]).0 == price
}

/// The highest price below `limit` that `mask` marks, or 0 where there is none.
pub open spec fn highest_below(mask: u128, limit: int) -> int
    decreases limit,
{
    if limit <= 1 {
        0
    } else if has_bit(mask, limit - 1) {
        limit - 1
    } else {
        highest_below(mask, limit - 1)
    }
}

pub proof fn lemma_highest_below(mask: u128, limit: int)
    ensures
        forall|n: int| 1 <= n < limit && #[trigger] has_bit(mask, n) ==> n <= highest_below(mask, limit),
        highest_below(mask, limit) == 0 || (1 <= highest_below(mask, limit) < limit && has_bit(
            mask,
            highest_below(mask, limit),
        )),
    decreases limit,
{
    if limit > 1 {
        lemma_highest_below(mask, limit - 1);
    }
}

pub proof fn lemma_zero_sum(quantities: Seq<i64>, upto: int)
    requires
        upto <= 99,
        forall|n: int| tradable(n) ==> #[trigger] quantities[n] == 0,
    ensures
        quantity_sum(quantities, upto) == 0,
    decreases upto,
{
    if upto > 0 {
        assert(tradable(upto));
        lemma_zero_sum(quantities, upto - 1);
    }
}

/// Whether the running total of `levels` stays within the machine's integers.
pub fn snapshot_fits(levels: &[(i64, i64)]) -> (r: bool)
    ensures
        r == levels_fit(levels@),
{
    let mut total: i64 = 0;
    let mut i: usize = 0;
    while i < levels.len()
        invariant
            i <= levels.len(),
            total == listed_total(levels@.take(i as int)),
            forall|k: int| 0 <= k <= i ==> i64::MIN <= listed_total(#[trigger] levels@.take(k)) <= i64::MAX,
        decreases levels.len() - i,
    {
        let price: i64 = levels[i].0;
        let qty: i64 = levels[i].1;
        proof {
            assert(levels@.take(i + 1).drop_last() =~= levels@.take(i as int));
        }
        if price >= 1 && price <= 99 {
            match total.checked_add(qty) {
                Some(sum) => {
                    total = sum;
                },
                None => {
                    return false;
                },
            }
        }
        i = i + 1;
    }
    true
}

/// The best prices of a book that is quoted on both sides and not crossed, with the quantity
/// at each: bids for YES at `bid`, bids for NO that amount to offers of YES at `ask`.
#[derive(Debug, Clone, Copy, PartialEq, Eq, Structural)]
pub struct TopOfBook {
    pub bid: i64,
    pub ask: i64,
    pub bid_qty: i64,
    pub ask_qty: i64,
}

#[derive(Debug)]
pub struct OrderBook {
    pub yes_bids: BookSide,
    pub no_bids: BookSide,
    pub last_update: Instant,
    pub seq: u64,
    pub initialized: bool,
}

impl Clone for OrderBook {
    fn clone(&self) -> (r: Self)
        ensures
            r == *self,
    {
        Self {
            yes_bids: self.yes_bids.clone(),
            no_bids: self.no_bids.clone(),
            last_update: self.last_update,
            seq: self.seq,
            initialized: self.initialized,
        }
    }
}

impl OrderBook {
    pub open spec fn wf(&self) -> bool {
        self.yes_bids.wf() && self.no_bids.wf()
    }

    /// The bids for `side`.
    pub open spec fn bids(&self, side: Side) -> BookSide {
        match side {
            Side::Yes => self.yes_bids,
            Side::No => self.no_bids,
        }
    }

    /// The best offer of YES: the complement of the best bid for NO, or 0 where there is none.
    pub open spec fn yes_ask(&self) -> int {
        if self.no_bids.best_bid > 0 {
            100 - self.no_bids.best_bid
        } else {
            0
        }
    }

    /// Whether the book has a bid and an offer of YES, the offer above the bid.
    pub open spec fn quoted(&self) -> bool {
        0 < self.yes_bids.best_bid < self.yes_ask()
    }

    /// Whether an update can be judged and carried out within the machine's integers.
    pub open spec fn delta_fits(&self, side: Side, price: int, delta: int, seq: u64) -> bool {
        &&& self.seq < u64::MAX
        &&& seq == self.seq + 1 ==> self.bids(side).delta_fits(price, delta)
    }

    pub fn new() -> (r: Self)
        ensures
            r.wf(),
            r.yes_bids.holds(Seq::empty()),
            r.no_bids.holds(Seq::empty()),
            r.yes_bids.consistent(),
            r.no_bids.consistent(),
            r.seq == 0,
            !r.initialized,
    {
        Self {
            yes_bids: BookSide::new(),
            no_bids: BookSide::new(),
            last_update: Instant::now(),
            seq: 0,
            initialized: false,
        }
    }

    /// Replaces the book by a snapshot, taken at sequence number `seq`.
    pub fn apply_snapshot(&mut self, yes_levels: &[(i64, i64)], no_levels: &[(i64, i64)], seq: u64)
        requires
            levels_fit(yes_levels@),
            levels_fit(no_levels@),
        ensures
            final(self).wf(),
            final(self).yes_bids.holds(yes_levels@),
            final(self).no_bids.holds(no_levels@),
            final(self).seq == seq,
            final(self).initialized,
    {
        self.yes_bids.apply_snapshot(yes_levels);
        self.no_bids.apply_snapshot(no_levels);
        self.seq = seq;
        self.last_update = Instant::now();
        self.initialized = true;
    }

    /// Applies the update that carries sequence number `seq`. An update that does not follow
    /// directly on the last one is refused: the book keeps its state and `false` comes back.
    pub fn apply_delta(&mut self, side: Side, price: i64, delta: i64, seq: u64) -> (applied: bool)
        requires
            old(self).wf(),
            old(self).delta_fits(side, price as int, delta as int, seq),
        ensures
            applied == (seq == old(self).seq + 1),
            !applied ==> *final(self) == *old(self),
            applied ==> {
                &&& final(self).wf()
                &&& final(self).seq == seq
                &&& final(self).initialized == old(self).initialized
                &&& side == Side::Yes ==> {
                    &&& final(self).yes_bids.changed_from(old(self).yes_bids, price as int, delta as int)
                    &&& final(self).no_bids == old(self).no_bids
                }
                &&& side == Side::No ==> {
                    &&& final(self).no_bids.changed_from(old(self).no_bids, price as int, delta as int)
                    &&& final(self).yes_bids == old(self).yes_bids
                }
            },
    {
        if seq != self.seq + 1 {
            return false;
        }
        match side {
            Side::Yes => self.yes_bids.apply_delta(price, delta),
            Side::No => self.no_bids.apply_delta(price, delta),
        }
        self.seq = seq;
        self.last_update = Instant::now();
        true
    }

    /// Whether `apply_delta` can be called with these arguments.
    pub fn accepts_delta(&self, side: Side, price: i64, delta: i64, seq: u64) -> (r: bool)
        ensures
            r == self.delta_fits(side, price as int, delta as int, seq),
    {
        if self.seq == u64::MAX {
            return false;
        }
        if seq != self.seq + 1 || price < 1 || price > 99 {
            return true;
        }
        let total: i64 = match side {
            Side::Yes => self.yes_bids.total_qty,
            Side::No => self.no_bids.total_qty,
        };
        let quantity: i64 = match side {
            Side::Yes => self.yes_bids.quantities[price as usize],
            Side::No => self.no_bids.quantities[price as usize],
        };
        match quantity.checked_add(delta) {
            Some(moved) => {
                let left: i64 = if moved > 0 {
                    moved
                } else {
                    0
                };
                match left.checked_sub(quantity) {
                    Some(gain) => total.checked_add(gain).is_some(),
                    None => false,
                }
            },
            None => false,
        }
    }

    pub fn best_yes_bid(&self) -> (r: i64)
        ensures
            r == self.yes_bids.best_bid,
    {
        self.yes_bids.best_bid
    }

    pub fn best_yes_ask(&self) -> (r: i64)
        ensures
            r == self.yes_ask(),
    {
        if self.no_bids.best_bid > 0 {
            100 - self.no_bids.best_bid
        } else {
            0
        }
    }

    /// The offer less the bid, or `i64::MAX` where one of them is missing.
    pub fn yes_spread(&self) -> (r: i64)
        ensures
            r == (if self.yes_bids.best_bid > 0 && self.yes_ask() > 0 {
                self.yes_ask() - self.yes_bids.best_bid
            } else {
                i64::MAX as int
            }),
    {
        let ask: i64 = self.best_yes_ask();
        let bid: i64 = self.best_yes_bid();
        if ask > 0 && bid > 0 {
            ask - bid
        } else {
            i64::MAX
        }
    }

    /// The best prices and the quantities at them, where the book is quoted on both sides and
    /// not crossed. The midprice is half the sum of the two prices.
    pub fn two_sided(&self) -> (r: Option<TopOfBook>)
        ensures
            r is Some <==> self.quoted(),
            r matches Some(top) ==> {
                &&& top.bid == self.yes_bids.best_bid
                &&& top.ask == self.yes_ask()
                &&& top.bid_qty == self.yes_bids.quantities@[top.bid as int]
                &&& top.ask_qty == self.no_bids.quantities@[100 - top.ask]
                &&& 1 <= top.bid < top.ask <= 99
            },
    {
        let bid: i64 = self.best_yes_bid();
        let ask: i64 = self.best_yes_ask();
        if bid > 0 && ask > bid {
            Some(TopOfBook { bid, ask, bid_qty: self.yes_bids.best_bid_qty(), ask_qty: self.no_bids.best_bid_qty() })
        } else {
            None
        }
    }
}

#[derive(Debug, Clone, Copy, PartialEq, Eq, Structural)]
pub enum TrendDirection {
    /// The YES price is rising.
    Up,
    /// The YES price is falling.
    Down,
    /// No significant trend.
    Flat,
}

} // verus!
