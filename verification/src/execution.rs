//! The orders that this program has in the market.

use crate::text::same_text;
use vstd::prelude::*;
use vstd::string::*;

verus! {

#[derive(Debug, Clone, Copy, PartialEq, Eq, Structural)]
pub enum OrderStatus {
    PendingNew,
    Resting,
    PendingAmend,
    PendingCancel,
    Canceled,
    Executed,
}

impl OrderStatus {
    /// Whether an order in this status is in the market or on its way there.
    pub open spec fn working(self) -> bool {
        self == OrderStatus::PendingNew || self == OrderStatus::Resting || self == OrderStatus::PendingAmend
    }

    pub fn is_working(self) -> (r: bool)
        ensures
            r == self.working(),
    {
        match self {
            OrderStatus::PendingNew | OrderStatus::Resting | OrderStatus::PendingAmend => true,
            _ => false,
        }
    }
}

/// An order, as it was sent and as far as it is known to have come. An offer of YES is a bid
/// for NO, and its price is that of the NO contract.
#[derive(Debug)]
pub struct TrackedOrder {
    pub order_id: String,
    pub client_order_id: String,
    pub ticker: String,
    /// "yes" or "no".
    pub side: String,
    /// "buy" or "sell".
    pub action: String,
    pub price_cents: i64,
    pub count: i64,
    pub remaining: i64,
    pub status: OrderStatus,
    /// When the order was placed, in milliseconds on the caller's clock.
    pub created_ms: u64,
}

impl Clone for TrackedOrder {
    fn clone(&self) -> (r: Self)
        ensures
            r@ == self@,
    {
        TrackedOrder {
            order_id: self.order_id.clone(),
            client_order_id: self.client_order_id.clone(),
            ticker: self.ticker.clone(),
            side: self.side.clone(),
            action: self.action.clone(),
            price_cents: self.price_cents,
            count: self.count,
            remaining: self.remaining,
            status: self.status,
            created_ms: self.created_ms,
        }
    }
}

/// What a [`TrackedOrder`] says.
#[verifier::ext_equal]
pub struct OrderModel {
    pub order_id: Seq<char>,
    pub client_order_id: Seq<char>,
    pub ticker: Seq<char>,
    pub side: Seq<char>,
    pub action: Seq<char>,
    pub price_cents: int,
    pub count: int,
    pub remaining: int,
    pub status: OrderStatus,
    pub created_ms: int,
}

impl View for TrackedOrder {
    type V = OrderModel;

    open spec fn view(&self) -> OrderModel {
        OrderModel {
            order_id: self.order_id@,
            client_order_id: self.client_order_id@,
            ticker: self.ticker@,
            side: self.side@,
            action: self.action@,
            price_cents: self.price_cents as int,
            count: self.count as int,
            remaining: self.remaining as int,
            status: self.status,
            created_ms: self.created_ms as int,
        }
    }
}

/// The place of the first order called `id`, or the number of orders where none is.
pub open spec fn place_of(orders: Seq<OrderModel>, id: Seq<char>) -> int
    decreases orders.len(),
{
    if orders.len() == 0 || orders[0].order_id == id {
        0
    } else {
        1 + place_of(orders.skip(1), id)
    }
}

/// Whether an order called `id` is among `orders`.
pub open spec fn tracks(orders: Seq<OrderModel>, id: Seq<char>) -> bool {
    exists|i: int| 0 <= i < orders.len() && (#[trigger] orders[i]).order_id == id
}

/// `orders` with `order` in place of the one of the same id, or at the end where there is none.
pub open spec fn with_order(orders: Seq<OrderModel>, order: OrderModel) -> Seq<OrderModel> {
    if tracks(orders, order.order_id) {
        orders.update(place_of(orders, order.order_id), order)
    } else {
        orders.push(order)
    }
}

/// `orders` without the one called `id`.
pub open spec fn removed(orders: Seq<OrderModel>, id: Seq<char>) -> Seq<OrderModel> {
    if tracks(orders, id) {
        orders.remove(place_of(orders, id))
    } else {
        orders
    }
}

/// `orders` without those called by one of `ids`.
pub open spec fn all_removed(orders: Seq<OrderModel>, ids: Seq<Seq<char>>) -> Seq<OrderModel>
    decreases ids.len(),
{
    if ids.len() == 0 {
        orders
    } else {
        removed(all_removed(orders, ids.drop_last()), ids.last())
    }
}

/// `orders` with the one called `id` in `status`.
pub open spec fn with_status(orders: Seq<OrderModel>, id: Seq<char>, status: OrderStatus) -> Seq<OrderModel> {
    if tracks(orders, id) {
        let at = place_of(orders, id);
        orders.update(at, (OrderModel { status, ..orders[at] }))
    } else {
        orders
    }
}

/// `order` after `count` of it have been filled: executed once nothing remains.
pub open spec fn filled(order: OrderModel, count: int) -> OrderModel {
    let remaining = order.remaining - count;
    OrderModel {
        remaining,
        status: if remaining <= 0 {
            OrderStatus::Executed
        } else {
            order.status
        },
        ..order
    }
}

/// `orders` after `count` of the one called `id` have been filled.
pub open spec fn with_fill(orders: Seq<OrderModel>, id: Seq<char>, count: int) -> Seq<OrderModel> {
    if tracks(orders, id) {
        let at = place_of(orders, id);
        orders.update(at, filled(orders[at], count))
    } else {
        orders
    }
}

/// Whether `order` is a working order to buy `side` in the market `ticker`.
pub open spec fn is_working_buy(order: OrderModel, ticker: Seq<char>, side: Seq<char>) -> bool {
    order.ticker == ticker && order.side == side && order.action == "buy"@ && order.status.working()
}

/// The first working order to buy `side` in the market `ticker`.
pub open spec fn first_working(orders: Seq<OrderModel>, ticker: Seq<char>, side: Seq<char>) -> Option<OrderModel>
    decreases orders.len(),
{
    if orders.len() == 0 {
        None
    } else if is_working_buy(orders[0], ticker, side) {
        Some(orders[0])
    } else {
        first_working(orders.skip(1), ticker, side)
    }
}

/// The ids of the working orders in the market `ticker`.
pub open spec fn working_ids(orders: Seq<OrderModel>, ticker: Seq<char>) -> Seq<Seq<char>>
    decreases orders.len(),
{
    if orders.len() == 0 {
        Seq::empty()
    } else {
        let front = working_ids(orders.drop_last(), ticker);
        if orders.last().ticker == ticker && orders.last().status.working() {
            front.push(orders.last().order_id)
        } else {
            front
        }
    }
}

/// Whether an order is kept at `now_ms`: it is working or being cancelled, or not over `max_age_ms` old.
pub open spec fn kept(order: OrderModel, now_ms: int, max_age_ms: int) -> bool {
    ||| !(order.status == OrderStatus::Canceled || order.status == OrderStatus::Executed)
    ||| now_ms - order.created_ms <= max_age_ms
}

/// The orders of `orders` that are kept at `now_ms`.
pub open spec fn collected(orders: Seq<OrderModel>, now_ms: int, max_age_ms: int) -> Seq<OrderModel>
    decreases orders.len(),
{
    if orders.len() == 0 {
        Seq::empty()
    } else {
        let front = collected(orders.drop_last(), now_ms, max_age_ms);
        if kept(orders.last(), now_ms, max_age_ms) {
            front.push(orders.last())
        } else {
            front
        }
    }
}

/// Texts, as plain sequences of characters.
pub open spec fn texts_view(texts: Seq<String>) -> Seq<Seq<char>> {
    texts.map_values(|text: String| text@)
}

/// The orders of this program, each under an id of its own.
#[derive(Debug)]
pub struct OrderTracker {
    pub orders: Vec<TrackedOrder>,
}

impl View for OrderTracker {
    type V = Seq<OrderModel>;

    open spec fn view(&self) -> Seq<OrderModel> {
        self.orders@.map_values(|order: TrackedOrder| order@)
    }
}

/// Whether no two of `orders` have the same id.
pub open spec fn distinct_ids(orders: Seq<OrderModel>) -> bool {
    forall|i: int, j: int|
        0 <= i < j < orders.len() ==> (#[trigger] orders[i]).order_id != (#[trigger] orders[j]).order_id
}

pub proof fn lemma_place_of(orders: Seq<OrderModel>, id: Seq<char>)
    ensures
        0 <= place_of(orders, id) <= orders.len(),
        tracks(orders, id) <==> place_of(orders, id) < orders.len(),
        place_of(orders, id) < orders.len() ==> orders[place_of(orders, id)].order_id == id,
        forall|i: int| 0 <= i < place_of(orders, id) ==> (#[trigger] orders[i]).order_id != id,
    decreases orders.len(),
{
    if orders.len() > 0 {
        let rest = orders.skip(1);
        lemma_place_of(rest, id);
        if orders[0].order_id == id {
            assert(tracks(orders, id));
        } else {
            if tracks(orders, id) {
                let k = choose|k: int| 0 <= k < orders.len() && (#[trigger] orders[k]).order_id == id;
                assert(rest[k - 1] == orders[k]);
            }
            assert forall|i: int| 0 <= i < place_of(orders, id) implies (#[trigger] orders[i]).order_id != id by {
                if i > 0 {
                    assert(rest[i - 1] == orders[i]);
                }
            }
        }
    }
}

impl OrderTracker {
    pub open spec fn wf(&self) -> bool {
        distinct_ids(self@)
    }

    pub fn new() -> (r: Self)
        ensures
            r.wf(),
            r@ == Seq::<OrderModel>::empty(),
    {
        let r = Self { orders: Vec::new() };
        assert(r@ =~= Seq::<OrderModel>::empty());
        r
    }

    /// The place of the order called `id`, or the number of orders where there is none.
    fn find(&self, id: &str) -> (r: usize)
        ensures
            r == place_of(self@, id@),
            r <= self.orders@.len(),
    {
        let mut i: usize = 0;
        assert(self@.skip(0) =~= self@);
        while i < self.orders.len()
            invariant
                i <= self.orders@.len(),
                place_of(self@, id@) == i + place_of(self@.skip(i as int), id@),
            decreases self.orders.len() - i,
        {
            let ghost rest = self@.skip(i as int);
            assert(rest[0] == self.orders@[i as int]@);
            assert(rest.skip(1) =~= self@.skip(i + 1));
            if same_text(self.orders[i].order_id.as_str(), id) {
                return i;
            }
            i = i + 1;
        }
        i
    }

    /// Adds `order`, in place of an order of the same id where there is one.
    pub fn track(&mut self, order: TrackedOrder)
        requires
            old(self).wf(),
        ensures
            final(self).wf(),
            final(self)@ == with_order(old(self)@, order@),
    {
        let at: usize = self.find(order.order_id.as_str());
        proof {
            lemma_place_of(self@, order@.order_id);
        }
        let ghost model = order@;
        if at < self.orders.len() {
            self.orders.set(at, order);
            assert(self@ =~= old(self)@.update(at as int, model));
        } else {
            self.orders.push(order);
            assert(self@ =~= old(self)@.push(model));
        }
        proof {
            lemma_with_order_distinct(old(self)@, model);
        }
    }

    /// Drops the order called `id`, where there is one.
    pub fn remove(&mut self, id: &str)
        requires
            old(self).wf(),
        ensures
            final(self).wf(),
            final(self)@ == removed(old(self)@, id@),
    {
        let at: usize = self.find(id);
        proof {
            lemma_place_of(self@, id@);
        }
        if at < self.orders.len() {
            self.orders.remove(at);
            assert(self@ =~= old(self)@.remove(at as int));
        }
        proof {
            lemma_removed_distinct(old(self)@, id@);
        }
    }

    /// Drops the orders called by one of `ids`.
    pub fn remove_all(&mut self, ids: &Vec<String>)
        requires
            old(self).wf(),
        ensures
            final(self).wf(),
            final(self)@ == all_removed(old(self)@, texts_view(ids@)),
    {
        let ghost names = texts_view(ids@);
        let mut i: usize = 0;
        assert(names.take(0) =~= Seq::empty());
        while i < ids.len()
            invariant
                i <= ids.len(),
                names == texts_view(ids@),
                self.wf(),
                self@ == all_removed(old(self)@, names.take(i as int)),
            decreases ids.len() - i,
        {
            assert(names.take(i + 1).drop_last() =~= names.take(i as int));
            assert(names.take(i + 1).last() == ids@[i as int]@);
            self.remove(ids[i].as_str());
            i = i + 1;
        }
        assert(names.take(i as int) =~= names);
    }

    /// Puts the order called `id`, where there is one, in `status`.
    pub fn update_status(&mut self, id: &str, status: OrderStatus)
        requires
            old(self).wf(),
        ensures
            final(self).wf(),
            final(self)@ == with_status(old(self)@, id@, status),
    {
        let at: usize = self.find(id);
        proof {
            lemma_place_of(self@, id@);
        }
        if at < self.orders.len() {
            self.orders[at].status = status;
            assert(self@ =~= with_status(old(self)@, id@, status));
        }
    }

    /// Whether a fill of `count` of the order called `id` can be recorded within the machine's integers.
    pub open spec fn fill_fits(&self, id: Seq<char>, count: int) -> bool {
        tracks(self@, id) ==> i64::MIN <= self@[place_of(self@, id)].remaining - count <= i64::MAX
    }

    /// Whether `record_fill` can be called with these arguments.
    pub fn accepts_fill(&self, id: &str, count: i64) -> (r: bool)
        ensures
            r == self.fill_fits(id@, count as int),
    {
        let at: usize = self.find(id);
        proof {
            lemma_place_of(self@, id@);
        }
        if at < self.orders.len() {
            self.orders[at].remaining.checked_sub(count).is_some()
        } else {
            true
        }
    }

    /// Takes `count` off what remains of the order called `id`, where there is one.
    pub fn record_fill(&mut self, id: &str, count: i64)
        requires
            old(self).wf(),
            old(self).fill_fits(id@, count as int),
        ensures
            final(self).wf(),
            final(self)@ == with_fill(old(self)@, id@, count as int),
    {
        let at: usize = self.find(id);
        proof {
            lemma_place_of(self@, id@);
        }
        if at < self.orders.len() {
            let remaining: i64 = self.orders[at].remaining - count;
            self.orders[at].remaining = remaining;
            if remaining <= 0 {
                self.orders[at].status = OrderStatus::Executed;
            }
            assert(self@ =~= with_fill(old(self)@, id@, count as int));
        }
    }

    fn working_buy(&self, ticker: &str, side: &str) -> (r: Option<&TrackedOrder>)
        ensures
            (match r {
                Some(order) => Some(order@),
                None => None,
            }) == first_working(self@, ticker@, side@),
    {
        let mut i: usize = 0;
        assert(self@.skip(0) =~= self@);
        while i < self.orders.len()
            invariant
                i <= self.orders@.len(),
                first_working(self@, ticker@, side@) == first_working(self@.skip(i as int), ticker@, side@),
            decreases self.orders.len() - i,
        {
            let ghost rest = self@.skip(i as int);
            assert(rest[0] == self.orders@[i as int]@);
            assert(rest.skip(1) =~= self@.skip(i + 1));
            let order: &TrackedOrder = &self.orders[i];
            if same_text(order.ticker.as_str(), ticker) && same_text(order.side.as_str(), side) && same_text(
                order.action.as_str(),
                "buy",
            ) && order.status.is_working() {
                return Some(order);
            }
            i = i + 1;
        }
        None
    }

    /// The working bid for YES in the market `ticker`.
    pub fn resting_bid(&self, ticker: &str) -> (r: Option<&TrackedOrder>)
        ensures
            (match r {
                Some(order) => Some(order@),
                None => None,
            }) == first_working(self@, ticker@, "yes"@),
    {
        self.working_buy(ticker, "yes")
    }

    /// The working offer of YES, a bid for NO, in the market `ticker`.
    pub fn resting_ask(&self, ticker: &str) -> (r: Option<&TrackedOrder>)
        ensures
            (match r {
                Some(order) => Some(order@),
                None => None,
            }) == first_working(self@, ticker@, "no"@),
    {
        self.working_buy(ticker, "no")
    }

    /// The ids of the working orders in the market `ticker`.
    pub fn resting_order_ids(&self, ticker: &str) -> (ids: Vec<String>)
        ensures
            texts_view(ids@) == working_ids(self@, ticker@),
    {
        let mut ids: Vec<String> = Vec::new();
        let mut i: usize = 0;
        assert(self@.take(0) =~= Seq::empty());
        assert(texts_view(ids@) =~= Seq::empty());
        while i < self.orders.len()
            invariant
                i <= self.orders@.len(),
                texts_view(ids@) == working_ids(self@.take(i as int), ticker@),
            decreases self.orders.len() - i,
        {
            let ghost upto = self@.take(i + 1);
            assert(upto.drop_last() =~= self@.take(i as int));
            assert(upto.last() == self.orders@[i as int]@);
            let order: &TrackedOrder = &self.orders[i];
            if same_text(order.ticker.as_str(), ticker) && order.status.is_working() {
                let ghost before = ids@;
                ids.push(order.order_id.clone());
                assert(texts_view(ids@) =~= texts_view(before).push(order@.order_id));
            }
            i = i + 1;
        }
        assert(self@.take(i as int) =~= self@);
        ids
    }

    /// Forgets the orders that are over and older than `max_age_ms` at `now_ms`.
    pub fn gc(&mut self, now_ms: u64, max_age_ms: u64)
        requires
            old(self).wf(),
        ensures
            final(self).wf(),
            final(self)@ == collected(old(self)@, now_ms as int, max_age_ms as int),
    {
        let ghost all = self@;
        let mut rest: Vec<TrackedOrder> = Vec::new();
        let mut i: usize = 0;
        let ghost view = |orders: Seq<TrackedOrder>| orders.map_values(|order: TrackedOrder| order@);
        assert(all.take(0) =~= Seq::empty());
        assert(view(rest@) =~= Seq::empty());
        while i < self.orders.len()
            invariant
                i <= self.orders@.len(),
                self@ == all,
                view == (|orders: Seq<TrackedOrder>| orders.map_values(|order: TrackedOrder| order@)),
                view(rest@) == collected(all.take(i as int), now_ms as int, max_age_ms as int),
            decreases self.orders.len() - i,
        {
            let ghost upto = all.take(i + 1);
            assert(upto.drop_last() =~= all.take(i as int));
            assert(upto.last() == self.orders@[i as int]@);
            let order: &TrackedOrder = &self.orders[i];
            let over: bool = match order.status {
                OrderStatus::Canceled | OrderStatus::Executed => true,
                _ => false,
            };
            if !over || now_ms <= order.created_ms || now_ms - order.created_ms <= max_age_ms {
                let ghost before = rest@;
                rest.push(order.clone());
                assert(view(rest@) =~= view(before).push(order@));
            }
            i = i + 1;
        }
        assert(all.take(i as int) =~= all);
        self.orders = rest;
        proof {
            lemma_collected_distinct(all, now_ms as int, max_age_ms as int);
        }
    }
}

proof fn lemma_with_order_distinct(orders: Seq<OrderModel>, order: OrderModel)
    requires
        distinct_ids(orders),
    ensures
        distinct_ids(with_order(orders, order)),
{
    lemma_place_of(orders, order.order_id);
    let after = with_order(orders, order);
    assert forall|i: int, j: int| 0 <= i < j < after.len() implies (#[trigger] after[i]).order_id != (
    #[trigger] after[j]).order_id by {
        assert(i < orders.len());
        assert(j < orders.len() ==> orders[i].order_id != orders[j].order_id);
    }
}

proof fn lemma_removed_distinct(orders: Seq<OrderModel>, id: Seq<char>)
    requires
        distinct_ids(orders),
    ensures
        distinct_ids(removed(orders, id)),
{
    lemma_place_of(orders, id);
    let at = place_of(orders, id);
    let after = removed(orders, id);
    if tracks(orders, id) {
        assert forall|i: int, j: int| 0 <= i < j < after.len() implies (#[trigger] after[i]).order_id != (
        #[trigger] after[j]).order_id by {
            let a = if i < at { i } else { i + 1 };
            let b = if j < at { j } else { j + 1 };
            assert(after[i] == orders[a] && after[j] == orders[b]);
        }
    }
}

proof fn lemma_collected_distinct(orders: Seq<OrderModel>, now_ms: int, max_age_ms: int)
    requires
        distinct_ids(orders),
    ensures
        distinct_ids(collected(orders, now_ms, max_age_ms)),
        forall|i: int|
            0 <= i < collected(orders, now_ms, max_age_ms).len() ==> orders.contains(
                #[trigger] collected(orders, now_ms, max_age_ms)[i],
            ),
    decreases orders.len(),
{
    if orders.len() > 0 {
        let front = orders.drop_last();
        assert forall|i: int, j: int| 0 <= i < j < front.len() implies (#[trigger] front[i]).order_id != (
        #[trigger] front[j]).order_id by {
            assert(front[i] == orders[i] && front[j] == orders[j]);
        }
        lemma_collected_distinct(front, now_ms, max_age_ms);
        let some = collected(front, now_ms, max_age_ms);
        let all = collected(orders, now_ms, max_age_ms);
        assert forall|i: int| 0 <= i < all.len() implies orders.contains(#[trigger] all[i]) by {
            if i < some.len() {
                assert(front.contains(some[i]));
                let k = choose|k: int| 0 <= k < front.len() && front[k] == some[i];
                assert(orders[k] == all[i]);
            } else {
                assert(orders[orders.len() - 1] == all[i]);
            }
        }
        assert forall|i: int, j: int| 0 <= i < j < all.len() implies (#[trigger] all[i]).order_id != (
        #[trigger] all[j]).order_id by {
            if j < some.len() {
                assert(some[i].order_id != some[j].order_id);
            } else {
                assert(front.contains(some[i]));
                let k = choose|k: int| 0 <= k < front.len() && front[k] == some[i];
                assert(orders[k].order_id != orders[orders.len() - 1].order_id);
            }
        }
    }
}

} // verus!
