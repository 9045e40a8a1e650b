//! Carrying out the strategy's actions: which requests they make, and what the replies to these
//! change.

use crate::execution::{
    all_removed, removed, texts_view, with_order, with_status, working_ids, OrderModel, OrderStatus, OrderTracker, TrackedOrder,
};
use crate::strategy::{actions_view, ActionModel, StrategyAction};
use vstd::prelude::*;
use vstd::string::*;

verus! {

/// A request to the exchange.
#[derive(Debug)]
pub enum OrderRequest {
    /// Buy `count` contracts of `side` at `price_cents`.
    Buy { side: String, price_cents: i64, count: i64 },
    /// Change an order to buy `side`.
    Amend { order_id: String, client_order_id: String, side: String, price_cents: i64, count: i64 },
    Cancel { order_id: String },
    /// Cancel these orders, all at once; `after_cancel_many` says what follows if that fails.
    CancelMany { order_ids: Vec<String> },
}

/// What an [`OrderRequest`] says.
#[verifier::ext_equal]
pub enum RequestModel {
    Buy { side: Seq<char>, price_cents: int, count: int },
    Amend { order_id: Seq<char>, client_order_id: Seq<char>, side: Seq<char>, price_cents: int, count: int },
    Cancel { order_id: Seq<char> },
    CancelMany { order_ids: Seq<Seq<char>> },
}

impl View for OrderRequest {
    type V = RequestModel;

    open spec fn view(&self) -> RequestModel {
        match self {
            OrderRequest::Buy { side, price_cents, count } => RequestModel::Buy {
                side: side@,
                price_cents: *price_cents as int,
                count: *count as int,
            },
            OrderRequest::Amend { order_id, client_order_id, side, price_cents, count } => RequestModel::Amend {
                order_id: order_id@,
                client_order_id: client_order_id@,
                side: side@,
                price_cents: *price_cents as int,
                count: *count as int,
            },
            OrderRequest::Cancel { order_id } => RequestModel::Cancel { order_id: order_id@ },
            OrderRequest::CancelMany { order_ids } => RequestModel::CancelMany { order_ids: texts_view(order_ids@) },
        }
    }
}

/// The exchange's reply to a request.
#[derive(Debug)]
pub enum Reply {
    /// The order is in, under these ids.
    Order { order_id: String, client_order_id: String },
    /// The request was carried out; no order came of it.
    Done,
    Failed,
}

/// What a [`Reply`] says.
#[verifier::ext_equal]
pub enum ReplyModel {
    Order { order_id: Seq<char>, client_order_id: Seq<char> },
    Done,
    Failed,
}

impl View for Reply {
    type V = ReplyModel;

    open spec fn view(&self) -> ReplyModel {
        match self {
            Reply::Order { order_id, client_order_id } => ReplyModel::Order {
                order_id: order_id@,
                client_order_id: client_order_id@,
            },
            Reply::Done => ReplyModel::Done,
            Reply::Failed => ReplyModel::Failed,
        }
    }
}

/// Whether the price of an action can be turned into that of the other contract.
pub open spec fn action_fits(action: ActionModel) -> bool {
    action matches ActionModel::PlaceAsk { price_cents, .. } ==> 100 - price_cents <= i64::MAX
}

/// The request that an action makes. An offer of YES is made as a bid for NO. The cancellation of
/// all orders makes none where no order is working.
pub open spec fn request_of(action: ActionModel, orders: Seq<OrderModel>, ticker: Seq<char>) -> Option<RequestModel> {
    match action {
        ActionModel::PlaceBid { price_cents, count } => Some(RequestModel::Buy { side: "yes"@, price_cents, count }),
        ActionModel::PlaceAsk { price_cents, count } => Some(
            RequestModel::Buy { side: "no"@, price_cents: 100 - price_cents, count },
        ),
        ActionModel::CancelOrder { order_id } => Some(RequestModel::Cancel { order_id }),
        ActionModel::AmendBid { order_id, client_order_id, new_price_cents, count } => Some(
            RequestModel::Amend { order_id, client_order_id, side: "yes"@, price_cents: new_price_cents, count },
        ),
        ActionModel::AmendAsk { order_id, client_order_id, new_price_cents, count } => Some(
            RequestModel::Amend { order_id, client_order_id, side: "no"@, price_cents: new_price_cents, count },
        ),
        ActionModel::CancelAll => if working_ids(orders, ticker).len() == 0 {
            None
        } else {
            Some(RequestModel::CancelMany { order_ids: working_ids(orders, ticker) })
        },
    }
}

/// The requests that follow the reply to a cancellation of many orders at once: where it failed,
/// one for each order, else none.
pub open spec fn fallback(order_ids: Seq<Seq<char>>, reply: ReplyModel) -> Seq<RequestModel> {
    if reply is Failed {
        order_ids.map_values(|order_id: Seq<char>| RequestModel::Cancel { order_id })
    } else {
        Seq::empty()
    }
}

/// All requests that the cancellation of all orders makes, in order, where `reply` comes to the
/// first of them.
pub open spec fn cancel_all_requests(
    orders: Seq<OrderModel>,
    ticker: Seq<char>,
    reply: ReplyModel,
) -> Seq<RequestModel> {
    match request_of(ActionModel::CancelAll, orders, ticker) {
        Some(first) => seq![first] + fallback(working_ids(orders, ticker), reply),
        None => Seq::empty(),
    }
}

/// A new order to buy, just sent.
pub open spec fn new_order(
    order_id: Seq<char>,
    client_order_id: Seq<char>,
    ticker: Seq<char>,
    side: Seq<char>,
    price_cents: int,
    count: int,
    now_ms: int,
) -> OrderModel {
    OrderModel {
        order_id,
        client_order_id,
        ticker,
        side,
        action: "buy"@,
        price_cents,
        count,
        remaining: count,
        status: OrderStatus::PendingNew,
        created_ms: now_ms,
    }
}

/// The order that comes of an action that the exchange has taken under these ids; none comes of a
/// cancellation.
pub open spec fn order_of(
    action: ActionModel,
    order_id: Seq<char>,
    client_order_id: Seq<char>,
    ticker: Seq<char>,
    now_ms: int,
) -> Option<OrderModel> {
    match action {
        ActionModel::PlaceBid { price_cents, count } => Some(
            new_order(order_id, client_order_id, ticker, "yes"@, price_cents, count, now_ms),
        ),
        ActionModel::PlaceAsk { price_cents, count } => Some(
            new_order(order_id, client_order_id, ticker, "no"@, 100 - price_cents, count, now_ms),
        ),
        ActionModel::AmendBid { new_price_cents, count, .. } => Some(
            new_order(order_id, client_order_id, ticker, "yes"@, new_price_cents, count, now_ms),
        ),
        ActionModel::AmendAsk { new_price_cents, count, .. } => Some(
            new_order(order_id, client_order_id, ticker, "no"@, new_price_cents, count, now_ms),
        ),
        ActionModel::CancelOrder { .. } => None,
        ActionModel::CancelAll => None,
    }
}

/// The order that an action amends.
pub open spec fn amended_id(action: ActionModel) -> Option<Seq<char>> {
    match action {
        ActionModel::AmendBid { order_id, .. } => Some(order_id),
        ActionModel::AmendAsk { order_id, .. } => Some(order_id),
        _ => None,
    }
}

/// The orders after a new one has come, in place of `replaced` where it amends that one.
pub open spec fn adopted(orders: Seq<OrderModel>, replaced: Option<Seq<char>>, order: OrderModel) -> Seq<OrderModel> {
    match replaced {
        Some(id) => with_order(removed(orders, id), order),
        None => with_order(orders, order),
    }
}

/// The orders after the reply to an action that was carried out on its own. A new order is added;
/// an amended one gives way to it; a cancelled one waits for the exchange to confirm. A failed
/// amendment leaves the order resting, any other failure leaves all as it was. After the
/// cancellation of all orders they are dropped, whatever the reply.
pub open spec fn settled(
    orders: Seq<OrderModel>,
    action: ActionModel,
    reply: ReplyModel,
    ticker: Seq<char>,
    now_ms: int,
) -> Seq<OrderModel> {
    match action {
        ActionModel::CancelAll => all_removed(orders, working_ids(orders, ticker)),
        ActionModel::CancelOrder { order_id } => if reply is Failed {
            orders
        } else {
            with_status(orders, order_id, OrderStatus::PendingCancel)
        },
        _ => match reply {
            ReplyModel::Order { order_id, client_order_id } => adopted(
                orders,
                amended_id(action),
                order_of(action, order_id, client_order_id, ticker, now_ms)->0,
            ),
            _ => match amended_id(action) {
                Some(id) => with_status(orders, id, OrderStatus::Resting),
                None => orders,
            },
        },
    }
}

fn buy_order(
    order_id: String,
    client_order_id: String,
    ticker: &str,
    side: &str,
    price_cents: i64,
    count: i64,
    now_ms: u64,
) -> (r: TrackedOrder)
    ensures
        r@ == new_order(
            order_id@,
            client_order_id@,
            ticker@,
            side@,
            price_cents as int,
            count as int,
            now_ms as int,
        ),
{
    TrackedOrder {
        order_id,
        client_order_id,
        ticker: ticker.to_owned(),
        side: side.to_owned(),
        action: "buy".to_owned(),
        price_cents,
        count,
        remaining: count,
        status: OrderStatus::PendingNew,
        created_ms: now_ms,
    }
}

/// Whether `request_for` and what follows it can be called with this action.
pub fn accepts_action(action: &StrategyAction) -> (r: bool)
    ensures
        r == action_fits(action@),
{
    match action {
        StrategyAction::PlaceAsk { price_cents, .. } => 100i64.checked_sub(*price_cents).is_some(),
        _ => true,
    }
}

/// The request that an action makes, where it makes one.
pub fn request_for(action: &StrategyAction, tracker: &OrderTracker, ticker: &str) -> (r: Option<OrderRequest>)
    requires
        action_fits(action@),
    ensures
        (match r {
            Some(request) => Some(request@),
            None => None,
        }) == request_of(action@, tracker@, ticker@),
{
    match action {
        StrategyAction::PlaceBid { price_cents, count } => Some(
            OrderRequest::Buy { side: "yes".to_owned(), price_cents: *price_cents, count: *count },
        ),
        StrategyAction::PlaceAsk { price_cents, count } => Some(
            OrderRequest::Buy { side: "no".to_owned(), price_cents: 100 - *price_cents, count: *count },
        ),
        StrategyAction::CancelOrder { order_id } => Some(OrderRequest::Cancel { order_id: order_id.clone() }),
        StrategyAction::AmendBid { order_id, client_order_id, new_price_cents, count } => Some(
            OrderRequest::Amend {
                order_id: order_id.clone(),
                client_order_id: client_order_id.clone(),
                side: "yes".to_owned(),
                price_cents: *new_price_cents,
                count: *count,
            },
        ),
        StrategyAction::AmendAsk { order_id, client_order_id, new_price_cents, count } => Some(
            OrderRequest::Amend {
                order_id: order_id.clone(),
                client_order_id: client_order_id.clone(),
                side: "no".to_owned(),
                price_cents: *new_price_cents,
                count: *count,
            },
        ),
        StrategyAction::CancelAll => {
            let order_ids: Vec<String> = tracker.resting_order_ids(ticker);
            proof {
                assert(order_ids@.len() == texts_view(order_ids@).len());
            }
            if order_ids.len() == 0 {
                None
            } else {
                Some(OrderRequest::CancelMany { order_ids })
            }
        },
    }
}

/// The requests that follow the reply to a cancellation of `order_ids` at once: where it failed,
/// each order is cancelled on its own.
pub fn after_cancel_many(order_ids: &Vec<String>, reply: &Reply) -> (r: Vec<OrderRequest>)
    ensures
        r@.len() == fallback(texts_view(order_ids@), reply@).len(),
        forall|i: int| 0 <= i < r@.len() ==> (#[trigger] r@[i])@ == fallback(texts_view(order_ids@), reply@)[i],
{
    let mut requests: Vec<OrderRequest> = Vec::new();
    if let Reply::Failed = reply {
        let mut i: usize = 0;
        while i < order_ids.len()
            invariant
                i <= order_ids@.len(),
                requests@.len() == i,
                forall|k: int|
                    0 <= k < i ==> (#[trigger] requests@[k])@ == (RequestModel::Cancel { order_id: order_ids@[k]@ }),
            decreases order_ids.len() - i,
        {
            requests.push(OrderRequest::Cancel { order_id: order_ids[i].clone() });
            i = i + 1;
        }
    }
    requests
}

/// The order that comes of an action that the exchange has taken under these ids.
fn order_from(action: &StrategyAction, order_id: String, client_order_id: String, ticker: &str, now_ms: u64) -> (r: Option<
    TrackedOrder,
>)
    requires
        action_fits(action@),
    ensures
        (match r {
            Some(order) => Some(order@),
            None => None,
        }) == order_of(action@, order_id@, client_order_id@, ticker@, now_ms as int),
{
    match action {
        StrategyAction::PlaceBid { price_cents, count } => Some(
            buy_order(order_id, client_order_id, ticker, "yes", *price_cents, *count, now_ms),
        ),
        StrategyAction::PlaceAsk { price_cents, count } => Some(
            buy_order(order_id, client_order_id, ticker, "no", 100 - *price_cents, *count, now_ms),
        ),
        StrategyAction::AmendBid { new_price_cents, count, .. } => Some(
            buy_order(order_id, client_order_id, ticker, "yes", *new_price_cents, *count, now_ms),
        ),
        StrategyAction::AmendAsk { new_price_cents, count, .. } => Some(
            buy_order(order_id, client_order_id, ticker, "no", *new_price_cents, *count, now_ms),
        ),
        StrategyAction::CancelOrder { .. } => None,
        StrategyAction::CancelAll => None,
    }
}

fn amended(action: &StrategyAction) -> (r: Option<&String>)
    ensures
        (match r {
            Some(id) => Some(id@),
            None => None,
        }) == amended_id(action@),
{
    match action {
        StrategyAction::AmendBid { order_id, .. } => Some(order_id),
        StrategyAction::AmendAsk { order_id, .. } => Some(order_id),
        _ => None,
    }
}

/// Takes in a new order, in place of `replaced` where it amends that one.
pub fn adopt(tracker: &mut OrderTracker, replaced: Option<&str>, order: TrackedOrder)
    requires
        old(tracker).wf(),
    ensures
        final(tracker).wf(),
        final(tracker)@ == adopted(
            old(tracker)@,
            match replaced {
                Some(id) => Some(id@),
                None => None,
            },
            order@,
        ),
{
    if let Some(id) = replaced {
        tracker.remove(id);
    }
    tracker.track(order);
}

/// Takes in the reply to an action that was carried out on its own.
pub fn settle(tracker: &mut OrderTracker, action: &StrategyAction, reply: Reply, ticker: &str, now_ms: u64)
    requires
        old(tracker).wf(),
        action_fits(action@),
    ensures
        final(tracker).wf(),
        final(tracker)@ == settled(old(tracker)@, action@, reply@, ticker@, now_ms as int),
{
    match action {
        StrategyAction::CancelAll => {
            let ids: Vec<String> = tracker.resting_order_ids(ticker);
            tracker.remove_all(&ids);
        },
        StrategyAction::CancelOrder { order_id } => {
            match reply {
                Reply::Failed => {},
                _ => {
                    tracker.update_status(order_id.as_str(), OrderStatus::PendingCancel);
                },
            }
        },
        _ => {
            match reply {
                Reply::Order { order_id, client_order_id } => {
                    if let Some(order) = order_from(action, order_id, client_order_id, ticker, now_ms) {
                        match amended(action) {
                            Some(id) => adopt(tracker, Some(id.as_str()), order),
                            None => adopt(tracker, None, order),
                        }
                    }
                },
                _ => {
                    if let Some(id) = amended(action) {
                        tracker.update_status(id.as_str(), OrderStatus::Resting);
                    }
                },
            }
        },
    }
}

/// What an action that was carried out beside others has brought: the order that came of it, and
/// the id of the one that it amended. Nothing comes of a failure or of a cancellation.
pub open spec fn fired_order(
    action: ActionModel,
    reply: ReplyModel,
    ticker: Seq<char>,
    now_ms: int,
) -> Option<(Option<Seq<char>>, OrderModel)> {
    match reply {
        ReplyModel::Order { order_id, client_order_id } => match order_of(action, order_id, client_order_id, ticker, now_ms) {
            Some(order) => Some((amended_id(action), order)),
            None => None,
        },
        _ => None,
    }
}

/// What an action that was carried out beside others has brought.
pub fn fired(action: &StrategyAction, reply: Reply, ticker: &str, now_ms: u64) -> (r: Option<(Option<String>, TrackedOrder)>)
    requires
        action_fits(action@),
    ensures
        (match r {
            Some((replaced, order)) => Some(
                (
                    match replaced {
                        Some(id) => Some(id@),
                        None => None,
                    },
                    order@,
                ),
            ),
            None => None,
        }) == fired_order(action@, reply@, ticker@, now_ms as int),
{
    match reply {
        Reply::Order { order_id, client_order_id } => {
            match order_from(action, order_id, client_order_id, ticker, now_ms) {
                Some(order) => {
                    match amended(action) {
                        Some(id) => Some((Some(id.clone()), order)),
                        None => Some((None, order)),
                    }
                },
                None => None,
            }
        },
        _ => None,
    }
}

/// Whether an action takes orders out of the market.
pub open spec fn is_cancel(action: ActionModel) -> bool {
    action is CancelOrder || action is CancelAll
}

/// The actions of `actions` that cancel, or those that do not, in order.
pub open spec fn cancelling(actions: Seq<ActionModel>, cancel: bool) -> Seq<ActionModel> {
    actions.filter(|action: ActionModel| is_cancel(action) == cancel)
}

/// Parts the actions that cancel, which come first and one after another, from the rest.
pub fn split_actions(actions: Vec<StrategyAction>) -> (r: (Vec<StrategyAction>, Vec<StrategyAction>))
    ensures
        actions_view(r.0@) == cancelling(actions_view(actions@), true),
        actions_view(r.1@) == cancelling(actions_view(actions@), false),
{
    let ghost all = actions_view(actions@);
    let ghost yes = |action: ActionModel| is_cancel(action) == true;
    let ghost no = |action: ActionModel| is_cancel(action) == false;
    let mut cancels: Vec<StrategyAction> = Vec::new();
    let mut rest: Vec<StrategyAction> = Vec::new();
    proof {
        reveal(Seq::filter);
        assert(actions_view(cancels@) =~= all.take(0).filter(yes));
        assert(actions_view(rest@) =~= all.take(0).filter(no));
    }
    for action in it: actions
        invariant
            all == actions_view(it.seq()),
            yes == (|action: ActionModel| is_cancel(action) == true),
            no == (|action: ActionModel| is_cancel(action) == false),
            actions_view(cancels@) == all.take(it.index()).filter(yes),
            actions_view(rest@) == all.take(it.index()).filter(no),
    {
        let ghost n = it.index();
        let ghost cancels_before = cancels@;
        let ghost rest_before = rest@;
        proof {
            assert(all[n] == action@);
            assert(all.take(n + 1).drop_last() =~= all.take(n));
            assert(all.take(n + 1).last() == action@);
            reveal(Seq::filter);
        }
        let cancel: bool = match action {
            StrategyAction::CancelOrder { .. } => true,
            StrategyAction::CancelAll => true,
            _ => false,
        };
        let ghost model = action@;
        if cancel {
            cancels.push(action);
            assert(actions_view(cancels@) =~= actions_view(cancels_before).push(model));
        } else {
            rest.push(action);
            assert(actions_view(rest@) =~= actions_view(rest_before).push(model));
        }
    }
    assert(all.take(all.len() as int) =~= all);
    (cancels, rest)
}

/// How actions that place and amend are carried out.
#[derive(Debug)]
pub enum Dispatch {
    Nothing,
    /// On its own; the reply is taken in by `settle`.
    Alone(StrategyAction),
    /// Beside one another; the replies are taken in by `fired` and `adopt`.
    Together(Vec<StrategyAction>),
}

/// What a [`Dispatch`] says.
#[verifier::ext_equal]
pub enum DispatchView {
    Nothing,
    Alone(ActionModel),
    Together(Seq<ActionModel>),
}

impl View for Dispatch {
    type V = DispatchView;

    open spec fn view(&self) -> DispatchView {
        match self {
            Dispatch::Nothing => DispatchView::Nothing,
            Dispatch::Alone(action) => DispatchView::Alone(action@),
            Dispatch::Together(actions) => DispatchView::Together(actions_view(actions@)),
        }
    }
}

/// A single action is carried out on its own, several beside one another.
pub open spec fn dispatched(actions: Seq<ActionModel>) -> DispatchView {
    if actions.len() == 0 {
        DispatchView::Nothing
    } else if actions.len() == 1 {
        DispatchView::Alone(actions[0])
    } else {
        DispatchView::Together(actions)
    }
}

/// How to carry out the actions that place and amend.
pub fn dispatch(actions: Vec<StrategyAction>) -> (r: Dispatch)
    ensures
        r@ == dispatched(actions_view(actions@)),
{
    if actions.len() > 1 {
        return Dispatch::Together(actions);
    }
    let mut rest: Vec<StrategyAction> = actions;
    match rest.pop() {
        Some(action) => Dispatch::Alone(action),
        None => Dispatch::Nothing,
    }
}

/// The orders with those that `actions` amend marked as being amended.
pub open spec fn with_amends_marked(orders: Seq<OrderModel>, actions: Seq<ActionModel>) -> Seq<OrderModel>
    decreases actions.len(),
{
    if actions.len() == 0 {
        orders
    } else {
        let marked = with_amends_marked(orders, actions.drop_last());
        match amended_id(actions.last()) {
            Some(id) => with_status(marked, id, OrderStatus::PendingAmend),
            None => marked,
        }
    }
}

/// Marks the orders that `actions` are about to amend.
pub fn mark_amends(tracker: &mut OrderTracker, actions: &Vec<StrategyAction>)
    requires
        old(tracker).wf(),
    ensures
        final(tracker).wf(),
        final(tracker)@ == with_amends_marked(old(tracker)@, actions_view(actions@)),
{
    let ghost all = actions_view(actions@);
    let mut i: usize = 0;
    assert(all.take(0) =~= Seq::empty());
    while i < actions.len()
        invariant
            i <= actions@.len(),
            all == actions_view(actions@),
            tracker.wf(),
            tracker@ == with_amends_marked(old(tracker)@, all.take(i as int)),
        decreases actions.len() - i,
    {
        assert(all.take(i + 1).drop_last() =~= all.take(i as int));
        assert(all.take(i + 1).last() == actions@[i as int]@);
        if let Some(id) = amended(&actions[i]) {
            tracker.update_status(id.as_str(), OrderStatus::PendingAmend);
        }
        i = i + 1;
    }
    assert(all.take(i as int) =~= all);
}

} // verus!
