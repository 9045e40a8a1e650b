//! What holds of the order book across its operations.

use crate::bits::{has_bit, is_top_bit, lemma_empty_mask, lemma_same_bits};
use crate::market_data::{
    changed_quantity, highest_below, last_quantity, lemma_highest_below, lemma_zero_sum, levels_fit, listed_total, lists,
    quantity_sum, tradable, BookSide, OrderBook,
};
use vstd::prelude::*;

verus! {

/// Whether no two of `levels` are at the same tradable price.
pub open spec fn unrepeated(levels: Seq<(i64, i64)>) -> bool {
    forall|i: int, j: int|
        0 <= i < j < levels.len() && tradable(levels[i].0 as int) ==> (#[trigger] levels[i]).0 != (#[trigger] levels[j]).0
}

/// The best bid is the highest price with a positive quantity, and it is 0 exactly where no price
/// has one.
pub proof fn law_best_bid_is_highest(side: BookSide)
    requires
        side.wf(),
    ensures
        side.best_bid == 0 <==> (forall|n: int| tradable(n) ==> #[trigger] side.quantities@[n] <= 0),
        side.best_bid != 0 ==> tradable(side.best_bid as int) && side.quantities@[side.best_bid as int] > 0,
        forall|n: int| tradable(n) && n > side.best_bid ==> #[trigger] side.quantities@[n] <= 0,
{
    lemma_empty_mask(side.occupied);
    if side.occupied != 0 {
        assert(has_bit(side.occupied, side.best_bid as int));
    }
    assert forall|n: int| tradable(n) && n > side.best_bid implies #[trigger] side.quantities@[n] <= 0 by {
        if side.quantities@[n] > 0 {
            assert(side.filled(n));
            assert(has_bit(side.occupied, n));
        }
    }
}

/// A change of one quantity keeps a consistent side consistent.
pub proof fn law_delta_keeps_consistent(before: BookSide, after: BookSide, price: int, delta: int)
    requires
        before.consistent(),
        before.delta_fits(price, delta),
        after.changed_from(before, price, delta),
    ensures
        after.consistent(),
{
    if tradable(price) {
        let left = changed_quantity(before.quantities@[price] as int, delta) as i64;
        lemma_sum_of_update(before.quantities@, price, left, 99);
    }
}

/// A snapshot without repeated prices leaves a consistent side.
pub proof fn law_unrepeated_snapshot_is_consistent(side: BookSide, levels: Seq<(i64, i64)>)
    requires
        side.holds(levels),
        unrepeated(levels),
    ensures
        side.consistent(),
{
    lemma_snapshot_sum(side.quantities@, levels);
}

/// The order of a snapshot's levels does not matter: two snapshots without repeated prices that
/// list the same levels leave the same side.
pub proof fn law_level_order_does_not_matter(
    a_side: BookSide,
    b_side: BookSide,
    a: Seq<(i64, i64)>,
    b: Seq<(i64, i64)>,
)
    requires
        a_side.holds(a),
        b_side.holds(b),
        unrepeated(a),
        unrepeated(b),
        forall|level: (i64, i64)| #[trigger] a.contains(level) <==> b.contains(level),
    ensures
        a_side.quantities@ == b_side.quantities@,
        a_side.occupied == b_side.occupied,
        a_side.best_bid == b_side.best_bid,
        a_side.total_qty == b_side.total_qty,
{
    assert forall|n: int| tradable(n) implies #[trigger] last_quantity(a, n) == last_quantity(b, n) by {
        if lists(a, n) {
            let i = choose|i: int| 0 <= i < a.len() && (#[trigger] a[i]).0 == n;
            lemma_listed_quantity(a, i);
            assert(a.contains(a[i]));
            assert(b.contains(a[i]));
            let j = choose|j: int| 0 <= j < b.len() && b[j] == a[i];
            lemma_listed_quantity(b, j);
        } else {
            lemma_absent_quantity(a, n);
            assert forall|j: int| 0 <= j < b.len() implies (#[trigger] b[j]).0 != n by {
                if b[j].0 == n {
                    assert(b.contains(b[j]));
                    assert(a.contains(b[j]));
                    let i = choose|i: int| 0 <= i < a.len() && a[i] == b[j];
                    assert(a[i].0 == n);
                }
            }
            lemma_absent_quantity(b, n);
        }
    }
    assert forall|n: int| 0 <= n < 100 implies a_side.quantities@[n] == b_side.quantities@[n] by {
        if n > 0 {
            assert(tradable(n));
            assert(last_quantity(a, n) == last_quantity(b, n));
        }
    }
    assert(a_side.quantities@ =~= b_side.quantities@);
    lemma_snapshot_sum(a_side.quantities@, a);
    lemma_snapshot_sum(b_side.quantities@, b);
    assert forall|m: int| #[trigger] has_bit(a_side.occupied, m) <==> has_bit(b_side.occupied, m) by {
        if tradable(m) {
            assert(last_quantity(a, m) == last_quantity(b, m));
        }
    }
    lemma_same_bits(a_side.occupied, b_side.occupied);
    lemma_one_top_bit(a_side.occupied, a_side.best_bid as int, b_side.best_bid as int);
}

/// Undoing a change: a change of a quantity followed by the opposite change gives back the side
/// as it was, unless the quantity was below zero or the first of the two ran into zero.
pub proof fn law_delta_undone(before: BookSide, between: BookSide, after: BookSide, price: int, delta: int)
    requires
        before.wf(),
        tradable(price) ==> before.quantities@[price] >= 0 && before.quantities@[price] + delta >= 0,
        before.delta_fits(price, delta),
        between.changed_from(before, price, delta),
        between.delta_fits(price, -delta),
        after.changed_from(between, price, -delta),
    ensures
        after.quantities@ == before.quantities@,
        after.occupied == before.occupied,
        after.best_bid == before.best_bid,
        after.total_qty == before.total_qty,
{
    if tradable(price) {
        assert(after.quantities@ =~= before.quantities@);
        assert forall|m: int| #[trigger] has_bit(after.occupied, m) <==> has_bit(before.occupied, m) by {
            if m == price {
                assert(before.filled(m) <==> has_bit(before.occupied, m));
            } else {
                assert(has_bit(between.occupied, m) <==> has_bit(before.occupied, m));
            }
        }
        lemma_same_bits(after.occupied, before.occupied);
        lemma_one_top_bit(before.occupied, before.best_bid as int, after.best_bid as int);
    }
}

/// Changes at two different prices can be applied in either order.
pub proof fn law_deltas_commute(
    before: BookSide,
    p_first: BookSide,
    p_then_q: BookSide,
    q_first: BookSide,
    q_then_p: BookSide,
    p: int,
    p_delta: int,
    q: int,
    q_delta: int,
)
    requires
        before.wf(),
        p != q,
        p_first.changed_from(before, p, p_delta),
        p_then_q.changed_from(p_first, q, q_delta),
        q_first.changed_from(before, q, q_delta),
        q_then_p.changed_from(q_first, p, p_delta),
    ensures
        p_then_q.quantities@ == q_then_p.quantities@,
        p_then_q.occupied == q_then_p.occupied,
        p_then_q.best_bid == q_then_p.best_bid,
        p_then_q.total_qty == q_then_p.total_qty,
{
    assert(p_then_q.quantities@ =~= q_then_p.quantities@);
    assert forall|m: int| #[trigger] has_bit(p_then_q.occupied, m) <==> has_bit(q_then_p.occupied, m) by {
        assert(m != p && tradable(p) ==> (has_bit(p_first.occupied, m) <==> has_bit(before.occupied, m)));
        assert(m != q && tradable(q) ==> (has_bit(q_first.occupied, m) <==> has_bit(before.occupied, m)));
        assert(tradable(p) && m == p ==> has_bit(p_first.occupied, m) == has_bit(p_first.occupied, p));
        assert(tradable(q) && m == q ==> has_bit(q_first.occupied, m) == has_bit(q_first.occupied, q));
    }
    lemma_same_bits(p_then_q.occupied, q_then_p.occupied);
    lemma_one_top_bit(p_then_q.occupied, p_then_q.best_bid as int, q_then_p.best_bid as int);
}

/// The best levels of a side are determined: two lists of the `n` best levels are the same list.
pub proof fn law_best_levels_are_unique(side: BookSide, n: int, a: Seq<(i64, i64)>, b: Seq<(i64, i64)>)
    requires
        side.best_levels(n, a),
        side.best_levels(n, b),
    ensures
        a == b,
{
    lemma_best_levels_agree(side, n, a, b, a.len() as int);
    lemma_best_levels_agree(side, n, b, a, b.len() as int);
    assert(a =~= b);
}

/// The first of the best levels is at the best bid.
pub proof fn law_first_level_is_best_bid(side: BookSide, n: int, levels: Seq<(i64, i64)>)
    requires
        side.wf(),
        n > 0,
        side.best_levels(n, levels),
    ensures
        levels.len() == 0 <==> side.best_bid == 0,
        levels.len() > 0 ==> levels[0] == (side.best_bid, side.quantities@[side.best_bid as int]),
{
    lemma_empty_mask(side.occupied);
    if side.occupied != 0 {
        assert(has_bit(side.occupied, side.best_bid as int));
        if levels.len() > 0 {
            assert(side.is_level(levels[0]));
            if lists(levels, side.best_bid as int) {
                let i = choose|i: int| 0 <= i < levels.len() && (#[trigger] levels[i]).0 == side.best_bid;
                if i > 0 {
                    assert(levels[0].0 > levels[i].0);
                }
            } else {
                assert(side.best_bid < levels[0].0);
            }
        }
    } else if levels.len() > 0 {
        assert(side.is_level(levels[0]));
    }
}

/// Below the end of the range, the best price is the best bid; below the best bid, it is the next
/// marked price.
pub proof fn law_next_best(side: BookSide)
    requires
        side.wf(),
    ensures
        highest_below(side.occupied, 100) == side.best_bid,
        forall|n: int|
            #[trigger] has_bit(side.occupied, n) && n != side.best_bid ==> n <= highest_below(
                side.occupied,
                side.best_bid as int,
            ),
{
    lemma_empty_mask(side.occupied);
    lemma_highest_below(side.occupied, 100);
    lemma_highest_below(side.occupied, side.best_bid as int);
    if side.occupied != 0 {
        assert(has_bit(side.occupied, side.best_bid as int));
    }
}

/// A snapshot, level by level: an empty one leaves nothing; one more level at a tradable price sets
/// the quantity there, whatever an earlier level had set, adds to the total, and leaves all other
/// prices as they are; one at another price changes nothing.
pub proof fn law_snapshot_level_by_level(
    empty: BookSide,
    before: BookSide,
    after: BookSide,
    levels: Seq<(i64, i64)>,
    price: i64,
    quantity: i64,
)
    requires
        empty.holds(Seq::empty()),
        before.holds(levels),
        after.holds(levels.push((price, quantity))),
    ensures
        forall|n: int| 0 <= n <= 99 ==> #[trigger] empty.quantities@[n] == 0,
        empty.total_qty == 0,
        empty.best_bid == 0,
        forall|n: int|
            0 <= n <= 99 ==> #[trigger] after.quantities@[n] == (if 1 <= n && n == price {
                quantity
            } else {
                before.quantities@[n]
            }),
        after.total_qty == before.total_qty + (if 1 <= price <= 99 {
            quantity as int
        } else {
            0
        }),
{
    assert(levels.push((price, quantity)).drop_last() =~= levels);
    assert forall|n: int| 0 <= n <= 99 implies #[trigger] empty.quantities@[n] == 0 by {
        assert(n > 0 ==> tradable(n));
    }
    law_best_bid_is_highest(empty);
    assert forall|n: int| 0 <= n <= 99 implies #[trigger] after.quantities@[n] == (if 1 <= n && n == price {
        quantity
    } else {
        before.quantities@[n]
    }) by {
        assert(n > 0 ==> tradable(n));
    }
}

/// A change of a quantity adds to it, down to zero, and to the total as much as to the quantity; no
/// other price changes, and a change at another than a tradable price changes nothing.
pub proof fn law_delta_adds(before: BookSide, after: BookSide, price: int, delta: int)
    requires
        after.changed_from(before, price, delta),
        before.delta_fits(price, delta),
    ensures
        1 <= price <= 99 ==> {
            let sum = before.quantities@[price] + delta;
            &&& after.quantities@[price] == (if sum > 0 {
                sum
            } else {
                0
            })
            &&& after.total_qty - before.total_qty == after.quantities@[price] - before.quantities@[price]
            &&& forall|n: int| 0 <= n <= 99 && n != price ==> #[trigger] after.quantities@[n] == before.quantities@[n]
        },
        !(1 <= price <= 99) ==> after == before,
{
}

/// The mask marks exactly the prices from 1 to 99 that hold a positive quantity.
pub proof fn law_mask_marks_quantities(side: BookSide, price: int)
    requires
        side.wf(),
    ensures
        has_bit(side.occupied, price) <==> 1 <= price <= 99 && side.quantities@[price] > 0,
{
    assert(side.filled(price) ==> has_bit(side.occupied, price));
}

/// The best price below a limit holds a positive quantity, and no price between it and the limit does;
/// it is 0 exactly where no price below the limit does.
pub proof fn law_best_price_below(side: BookSide, limit: int)
    requires
        side.wf(),
    ensures
        ({
            let best = highest_below(side.occupied, limit);
            &&& best == 0 || (1 <= best < limit && best <= 99 && side.quantities@[best] > 0)
            &&& forall|n: int| 1 <= n <= 99 && best < n < limit ==> #[trigger] side.quantities@[n] <= 0
        }),
{
    lemma_highest_below(side.occupied, limit);
    let best = highest_below(side.occupied, limit);
    law_mask_marks_quantities(side, best);
    assert forall|n: int| 1 <= n <= 99 && best < n < limit implies #[trigger] side.quantities@[n] <= 0 by {
        law_mask_marks_quantities(side, n);
    }
}

/// The best levels are prices with a positive quantity, each with that quantity, from the highest
/// down; a price with a positive quantity is among them unless there are as many as were asked for,
/// all of them higher.
pub proof fn law_best_levels(side: BookSide, n: int, levels: Seq<(i64, i64)>)
    requires
        side.wf(),
        side.best_levels(n, levels),
    ensures
        levels.len() <= n,
        forall|i: int|
            0 <= i < levels.len() ==> 1 <= (#[trigger] levels[i]).0 <= 99 && levels[i].1 > 0 && levels[i].1
                == side.quantities@[levels[i].0 as int],
        forall|i: int, j: int| 0 <= i < j < levels.len() ==> (#[trigger] levels[i]).0 > (#[trigger] levels[j]).0,
        forall|p: int|
            1 <= p <= 99 && #[trigger] side.quantities@[p] > 0 ==> (exists|i: int|
                0 <= i < levels.len() && (#[trigger] levels[i]).0 == p) || (levels.len() == n && forall|i: int|
                0 <= i < levels.len() ==> (#[trigger] levels[i]).0 > p),
{
    assert forall|i: int| 0 <= i < levels.len() implies 1 <= (#[trigger] levels[i]).0 <= 99 && levels[i].1 > 0
        && levels[i].1 == side.quantities@[levels[i].0 as int] by {
        assert(side.is_level(levels[i]));
        law_mask_marks_quantities(side, levels[i].0 as int);
    }
    assert forall|p: int| 1 <= p <= 99 && #[trigger] side.quantities@[p] > 0 implies (exists|i: int|
        0 <= i < levels.len() && (#[trigger] levels[i]).0 == p) || (levels.len() == n && forall|i: int|
        0 <= i < levels.len() ==> (#[trigger] levels[i]).0 > p) by {
        law_mask_marks_quantities(side, p);
        assert(has_bit(side.occupied, p));
    }
}

/// An offer of YES is a bid for NO at the complement: the best offer and the best bid for NO make 100
/// cents, and the book is quoted where there is a bid below it.
pub proof fn law_offer_is_the_complement(book: OrderBook)
    ensures
        book.no_bids.best_bid > 0 ==> book.yes_ask() + book.no_bids.best_bid == 100,
        book.no_bids.best_bid <= 0 ==> book.yes_ask() == 0,
        book.quoted() <==> book.yes_bids.best_bid > 0 && book.no_bids.best_bid > 0 && book.yes_bids.best_bid
            + book.no_bids.best_bid < 100,
{
}

/// An update of up to a quintillion contracts can be carried out on a side whose quantities and total
/// are no larger than that.
pub proof fn law_ordinary_update_fits(side: BookSide, price: int, delta: int)
    requires
        -1000000000000000000 <= delta <= 1000000000000000000,
        -1000000000000000000 <= side.total_qty <= 1000000000000000000,
        1 <= price <= 99 ==> -1000000000000000000 <= side.quantities@[price] <= 1000000000000000000,
    ensures
        side.delta_fits(price, delta),
{
}

/// Every snapshot whose levels hold no negative quantities and make no more than the machine's largest
/// integer together can be taken in.
pub proof fn law_ordinary_snapshot_fits(levels: Seq<(i64, i64)>)
    requires
        forall|i: int| 0 <= i < levels.len() ==> (#[trigger] levels[i]).1 >= 0,
        listed_total(levels) <= i64::MAX,
    ensures
        levels_fit(levels),
{
    assert forall|k: int| 0 <= k <= levels.len() implies i64::MIN <= listed_total(#[trigger] levels.take(k))
        <= i64::MAX by {
        lemma_total_grows(levels, k);
    }
}

proof fn lemma_total_grows(levels: Seq<(i64, i64)>, k: int)
    requires
        forall|i: int| 0 <= i < levels.len() ==> (#[trigger] levels[i]).1 >= 0,
        0 <= k <= levels.len(),
    ensures
        0 <= listed_total(levels.take(k)) <= listed_total(levels),
    decreases levels.len(),
{
    if levels.len() > 0 {
        let earlier = levels.drop_last();
        assert(levels[levels.len() - 1].1 >= 0);
        assert forall|i: int| 0 <= i < earlier.len() implies (#[trigger] earlier[i]).1 >= 0 by {
            assert(levels[i] == earlier[i]);
        }
        if k < levels.len() {
            lemma_total_grows(earlier, k);
            assert(earlier.take(k) =~= levels.take(k));
        } else {
            lemma_total_grows(earlier, earlier.len() as int);
            assert(earlier.take(earlier.len() as int) =~= earlier);
            assert(levels.take(k) =~= levels);
        }
    } else {
        assert(levels.take(k) =~= levels);
    }
}

proof fn lemma_one_top_bit(mask: u128, a: int, b: int)
    requires
        is_top_bit(mask, a),
        is_top_bit(mask, b),
    ensures
        a == b,
{
}

proof fn lemma_sum_of_update(quantities: Seq<i64>, price: int, quantity: i64, upto: int)
    requires
        1 <= price < quantities.len(),
        upto < quantities.len(),
    ensures
        quantity_sum(quantities.update(price, quantity), upto) == quantity_sum(quantities, upto) + if price <= upto {
            quantity - quantities[price]
        } else {
            0
        },
    decreases upto,
{
    if upto > 0 {
        lemma_sum_of_update(quantities, price, quantity, upto - 1);
    }
}

/// The quantity at a price that is not repeated is the one that its level gives.
proof fn lemma_listed_quantity(levels: Seq<(i64, i64)>, i: int)
    requires
        unrepeated(levels),
        0 <= i < levels.len(),
        tradable(levels[i].0 as int),
    ensures
        last_quantity(levels, levels[i].0 as int) == levels[i].1,
    decreases levels.len(),
{
    let end = levels.len() - 1;
    if i < end {
        let earlier = levels.drop_last();
        lemma_earlier_unrepeated(levels);
        assert(earlier[i] == levels[i]);
        assert(levels[i].0 != levels[end].0);
        lemma_listed_quantity(earlier, i);
    }
}

proof fn lemma_earlier_unrepeated(levels: Seq<(i64, i64)>)
    requires
        unrepeated(levels),
        levels.len() > 0,
    ensures
        unrepeated(levels.drop_last()),
{
    let earlier = levels.drop_last();
    assert forall|i: int, j: int| 0 <= i < j < earlier.len() && tradable(earlier[i].0 as int) implies (
    #[trigger] earlier[i]).0 != (#[trigger] earlier[j]).0 by {
        assert(levels[i] == earlier[i] && levels[j] == earlier[j]);
    }
}

proof fn lemma_absent_quantity(levels: Seq<(i64, i64)>, price: int)
    requires
        forall|i: int| 0 <= i < levels.len() ==> (#[trigger] levels[i]).0 != price,
    ensures
        last_quantity(levels, price) == 0,
    decreases levels.len(),
{
    if levels.len() > 0 {
        let earlier = levels.drop_last();
        assert(levels[levels.len() - 1].0 != price);
        assert forall|i: int| 0 <= i < earlier.len() implies (#[trigger] earlier[i]).0 != price by {
            assert(levels[i] == earlier[i]);
        }
        lemma_absent_quantity(earlier, price);
    }
}

proof fn lemma_snapshot_sum(quantities: Seq<i64>, levels: Seq<(i64, i64)>)
    requires
        quantities.len() == 100,
        unrepeated(levels),
        forall|n: int| tradable(n) ==> #[trigger] quantities[n] == last_quantity(levels, n),
    ensures
        quantity_sum(quantities, 99) == listed_total(levels),
    decreases levels.len(),
{
    if levels.len() == 0 {
        lemma_zero_sum(quantities, 99);
    } else {
        let earlier = levels.drop_last();
        let end = levels.len() - 1;
        let price = levels[end].0 as int;
        lemma_earlier_unrepeated(levels);
        if tradable(price) {
            let rest = quantities.update(price, 0);
            assert forall|i: int| 0 <= i < earlier.len() implies (#[trigger] earlier[i]).0 != price by {
                assert(levels[i] == earlier[i]);
                if levels[i].0 == price {
                    assert(levels[i].0 != levels[end].0);
                }
            }
            lemma_absent_quantity(earlier, price);
            assert forall|n: int| tradable(n) implies #[trigger] rest[n] == last_quantity(earlier, n) by {
                if n != price {
                    assert(rest[n] == quantities[n]);
                }
            }
            lemma_snapshot_sum(rest, earlier);
            lemma_sum_of_update(quantities, price, 0, 99);
            assert(quantities[price] == last_quantity(levels, price));
        } else {
            lemma_snapshot_sum(quantities, earlier);
        }
    }
}

proof fn lemma_best_levels_agree(side: BookSide, n: int, a: Seq<(i64, i64)>, b: Seq<(i64, i64)>, k: int)
    requires
        side.best_levels(n, a),
        side.best_levels(n, b),
        0 <= k <= a.len(),
    ensures
        k <= b.len(),
        forall|i: int| 0 <= i < k ==> a[i] == b[i],
    decreases k,
{
    if k > 0 {
        lemma_best_levels_agree(side, n, a, b, k - 1);
        let i = k - 1;
        assert(side.is_level(a[i]));
        let m = a[i].0 as int;
        assert(has_bit(side.occupied, m));
        if lists(b, m) {
            let j = choose|j: int| 0 <= j < b.len() && (#[trigger] b[j]).0 == m;
            if j < i {
                assert(a[j] == b[j]);
                assert(a[j].0 > a[i].0);
            }
            if j > i {
                assert(side.is_level(b[i]));
                let top = b[i].0 as int;
                assert(b[i].0 > b[j].0);
                assert(has_bit(side.occupied, top));
                if lists(a, top) {
                    let h = choose|h: int| 0 <= h < a.len() && (#[trigger] a[h]).0 == top;
                    if h < i {
                        assert(a[h] == b[h]);
                        assert(b[h].0 > b[i].0);
                    } else if h > i {
                        assert(a[i].0 > a[h].0);
                    }
                } else {
                    assert(top < a[i].0);
                }
            }
            assert(side.is_level(b[i]));
        } else {
            // `b` is full and all of it is better than `m`; but then so is all of `a` up to `i`.
            assert(b.len() == n);
            assert(i < b.len());
            assert(m < b[i].0);
            assert(side.is_level(b[i]));
            let top = b[i].0 as int;
            assert(has_bit(side.occupied, top));
            if lists(a, top) {
                let h = choose|h: int| 0 <= h < a.len() && (#[trigger] a[h]).0 == top;
                if h < i {
                    assert(a[h] == b[h]);
                    assert(b[h].0 > b[i].0);
                } else if h > i {
                    assert(a[i].0 > a[h].0);
                }
            } else {
                assert(top < a[i].0);
            }
        }
    }
}

} // verus!
