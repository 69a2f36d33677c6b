//! The exchange: it takes market updates and orders in, matches resting
//! limit orders against the market, settles fills on the account,
//! liquidates a position that the account can no longer carry, and records
//! what an account tracker has to be told.

use vstd::prelude::*;
use crate::account::{Account, AccountView, appended, cancelled, magnitude, settle_defined, settled, settled_pnl};
use crate::active_orders::{copy_orders, has_id, index_before, index_of_id, inserted, removed, with_order, lemma_index_of_id, lemma_removed_index};
use crate::config::Config;
use crate::currency::{QuoteCurrency, fee_raw};
use crate::decimal::Decimal;
use crate::errors::{Error, OrderError};
use crate::margin::Margin;
use crate::market_state::{MarketState, updated};
use crate::market_update::MarketUpdate;
use crate::order::Order;
use crate::order_margin::{all_limit, order_margin_defined, order_margin_representable,
    lemma_order_margin_monotone};
use crate::position::Position;
use crate::price_filter::{limit_price_verdict, market_update_verdict};
use crate::quantity_filter::quantity_ok;
use crate::side::{OrderStatus, Side};
use crate::validator::{Validator, lemma_with_order_valid};

verus! {

/// What an account tracker is told.
#[derive(Clone, Copy, Debug, PartialEq, Eq)]
pub enum TrackerEvent {
    /// The market has moved: the time, the mid price and the unrealized profit.
    Update {
        /// The time of the update, in nanoseconds.
        timestamp_ns: u64,
        /// The mean of the best bid and ask.
        price: QuoteCurrency,
        /// The unrealized profit of the position.
        upnl: Decimal,
    },
    /// A profit was realised.
    Rpnl {
        /// The profit; a loss is negative.
        amount: Decimal,
    },
    /// A fee was paid.
    Fee {
        /// The fee.
        amount: Decimal,
    },
    /// A limit order came to rest.
    LimitOrderSubmission,
    /// A resting limit order was cancelled.
    LimitOrderCancellation,
    /// A resting limit order was filled.
    LimitOrderFill,
    /// The account traded.
    Trade {
        /// The side of the account.
        side: Side,
        /// The price of the trade.
        price: QuoteCurrency,
        /// The number of contracts.
        size: Decimal,
    },
}

/// A tracker event with raw values.
pub enum TrackerEventView {
    /// The market has moved.
    Update { timestamp_ns: u64, price: int, upnl: int },
    /// A profit was realised.
    Rpnl { amount: int },
    /// A fee was paid.
    Fee { amount: int },
    /// A limit order came to rest.
    LimitOrderSubmission,
    /// A resting limit order was cancelled.
    LimitOrderCancellation,
    /// A resting limit order was filled.
    LimitOrderFill,
    /// The account traded.
    Trade { side: Side, price: int, size: int },
}

impl View for TrackerEvent {
    type V = TrackerEventView;

    open spec fn view(&self) -> TrackerEventView {
        match *self {
            TrackerEvent::Update { timestamp_ns, price, upnl } => TrackerEventView::Update {
                timestamp_ns,
                price: price@,
                upnl: upnl@,
            },
            TrackerEvent::Rpnl { amount } => TrackerEventView::Rpnl { amount: amount@ },
            TrackerEvent::Fee { amount } => TrackerEventView::Fee { amount: amount@ },
            TrackerEvent::LimitOrderSubmission => TrackerEventView::LimitOrderSubmission,
            TrackerEvent::LimitOrderCancellation => TrackerEventView::LimitOrderCancellation,
            TrackerEvent::LimitOrderFill => TrackerEventView::LimitOrderFill,
            TrackerEvent::Trade { side, price, size } => TrackerEventView::Trade {
                side,
                price: price@,
                size: size@,
            },
        }
    }
}

/// The events with raw values.
pub open spec fn event_views(events: Seq<TrackerEvent>) -> Seq<TrackerEventView> {
    Seq::new(events.len(), |i: int| events[i]@)
}

/// The resting limit order `o` executes on the update `u`: on a change of
/// the best prices a buy executes when the ask is at or below its limit
/// price and a sell when the bid is at or above it; on a candle the low
/// and the high take the place of ask and bid; on a trade nothing executes.
pub open spec fn executable(o: Order, u: MarketUpdate) -> bool {
    o.is_limit() && match u {
        MarketUpdate::Bba { bid, ask } => match o.side {
            Side::Buy => ask@ <= o.price(),
            Side::Sell => bid@ >= o.price(),
        },
        MarketUpdate::Trade { price, quantity, side } => false,
        MarketUpdate::Candle { bid, ask, low, high } => match o.side {
            Side::Buy => low@ <= o.price(),
            Side::Sell => high@ >= o.price(),
        },
    }
}

/// The account after the orders of `pending` that execute on `u` were
/// filled, one after the other, each at its limit price and at the maker fee.
pub open spec fn filled_through(v: AccountView, pending: Seq<Order>, u: MarketUpdate)
    -> AccountView
    decreases pending.len(),
{
    if pending.len() == 0 {
        v
    } else {
        let before = filled_through(v, pending.drop_last(), u);
        let o = pending.last();
        if executable(o, u) {
            settled(before, o.id, o.side, o.size@, o.price(), true)
        } else {
            before
        }
    }
}

/// The orders of `pending` that execute on `u`, in their order, marked as filled.
pub open spec fn executed_orders(pending: Seq<Order>, u: MarketUpdate) -> Seq<Order>
    decreases pending.len(),
{
    if pending.len() == 0 {
        Seq::empty()
    } else if executable(pending.last(), u) {
        executed_orders(pending.drop_last(), u).push(
            Order { status: OrderStatus::Filled, ..pending.last() },
        )
    } else {
        executed_orders(pending.drop_last(), u)
    }
}

/// What the tracker is told of one fill: that a limit order was filled,
/// the fee, the realised profit, and the trade.
pub open spec fn events_of_fill(before: AccountView, o: Order) -> Seq<TrackerEventView> {
    seq![
        TrackerEventView::LimitOrderFill,
        TrackerEventView::Fee {
            amount: fee_raw(before.futures_type, o.size@, before.fee_maker, o.price()),
        },
        TrackerEventView::Rpnl {
            amount: settled_pnl(before, o.id, o.side, o.size@, o.price()),
        },
        TrackerEventView::Trade { side: o.side, price: o.price(), size: o.size@ },
    ]
}

/// What the tracker is told of the fills of the orders of `pending` that execute on `u`.
pub open spec fn fill_events(v: AccountView, pending: Seq<Order>, u: MarketUpdate) -> Seq<
    TrackerEventView,
>
    decreases pending.len(),
{
    if pending.len() == 0 {
        Seq::empty()
    } else if executable(pending.last(), u) {
        fill_events(v, pending.drop_last(), u) + events_of_fill(
            filled_through(v, pending.drop_last(), u),
            pending.last(),
        )
    } else {
        fill_events(v, pending.drop_last(), u)
    }
}

/// If the order at index `k` of `pending` executes on `u`, its fill,
/// after the orders before it had their turn, is representable.
pub open spec fn fill_defined_at(v: AccountView, pending: Seq<Order>, k: int, u: MarketUpdate)
    -> bool {
    executable(pending[k], u) ==> settle_defined(
        filled_through(v, pending.take(k), u),
        pending[k].id,
        pending[k].side,
        pending[k].size@,
        pending[k].price(),
        true,
    )
}

/// Every fill among the first `i` orders of `pending` is representable.
pub open spec fn fills_defined_up_to(v: AccountView, pending: Seq<Order>, i: int, u: MarketUpdate)
    -> bool {
    forall|k: int| 0 <= k < i ==> #[trigger] fill_defined_at(v, pending, k, u)
}

/// Every fill of the orders of `pending` that execute on `u` is representable.
pub open spec fn fills_defined(v: AccountView, pending: Seq<Order>, u: MarketUpdate) -> bool {
    fills_defined_up_to(v, pending, pending.len() as int, u)
}

/// The account can no longer carry its position: the unrealized profit
/// and the available balance together are not positive.
pub open spec fn liquidation_due(v: AccountView, bid: int, ask: int) -> bool {
    v.size != 0 && v.unrealized_pnl(bid, ask) + v.available() <= 0
}

/// The side of the order that closes the position.
pub open spec fn closing_side(v: AccountView) -> Side {
    if v.size > 0 {
        Side::Sell
    } else {
        Side::Buy
    }
}

/// The price at which the position is closed: the bid for a long, the ask for a short.
pub open spec fn closing_price(v: AccountView, bid: int, ask: int) -> int {
    if v.size > 0 {
        bid
    } else {
        ask
    }
}

/// The account after a market update with the best prices `bid` and
/// `ask`: the resting orders that execute are filled in ascending order
/// of identifier, and then the position is closed at the taker fee if the
/// account can no longer carry it.
pub open spec fn after_tick(v: AccountView, next_id: u64, u: MarketUpdate, bid: int, ask: int)
    -> AccountView {
    let filled = filled_through(v, v.orders, u);
    if liquidation_due(filled, bid, ask) {
        settled(
            filled,
            next_id,
            closing_side(filled),
            magnitude(filled.size),
            closing_price(filled, bid, ask),
            false,
        )
    } else {
        filled
    }
}

/// What the tracker is told of a liquidation: the fee, the realised
/// profit, and the trade.
pub open spec fn events_of_liquidation(v: AccountView, next_id: u64, bid: int, ask: int) -> Seq<
    TrackerEventView,
> {
    seq![
        TrackerEventView::Fee {
            amount: fee_raw(
                v.futures_type,
                magnitude(v.size),
                v.fee_taker,
                closing_price(v, bid, ask),
            ),
        },
        TrackerEventView::Rpnl {
            amount: settled_pnl(
                v,
                next_id,
                closing_side(v),
                magnitude(v.size),
                closing_price(v, bid, ask),
            ),
        },
        TrackerEventView::Trade {
            side: closing_side(v),
            price: closing_price(v, bid, ask),
            size: magnitude(v.size),
        },
    ]
}

/// What the tracker is told of a market update: the fills, the
/// liquidation if there is one, and at last the update itself with the
/// mid price and the unrealized profit that is left.
pub open spec fn tick_events(
    v: AccountView,
    next_id: u64,
    u: MarketUpdate,
    bid: int,
    ask: int,
    timestamp_ns: u64,
    mid: int,
) -> Seq<TrackerEventView> {
    let filled = filled_through(v, v.orders, u);
    fill_events(v, v.orders, u) + (if liquidation_due(filled, bid, ask) {
        events_of_liquidation(filled, next_id, bid, ask)
    } else {
        Seq::empty()
    }) + seq![
        TrackerEventView::Update {
            timestamp_ns,
            price: mid,
            upnl: after_tick(v, next_id, u, bid, ask).unrealized_pnl(bid, ask),
        },
    ]
}

/// Every step of a market update is representable.
pub open spec fn tick_defined(v: AccountView, next_id: u64, u: MarketUpdate, bid: int, ask: int)
    -> bool {
    let filled = filled_through(v, v.orders, u);
    &&& fills_defined(v, v.orders, u)
    &&& filled.unrealized_pnl_defined(bid, ask)
    &&& liquidation_due(filled, bid, ask) ==> settle_defined(
        filled,
        next_id,
        closing_side(filled),
        magnitude(filled.size),
        closing_price(filled, bid, ask),
        false,
    )
}

/// Every identifier is below `bound`.
pub open spec fn ids_below(orders: Seq<Order>, bound: u64) -> bool {
    forall|i: int| 0 <= i < orders.len() ==> (#[trigger] orders[i]).id < bound
}

/// Taking an order out keeps the identifiers below the bound and makes
/// the list no longer.
pub proof fn lemma_removed_ids_below(orders: Seq<Order>, id: u64, bound: u64)
    requires
        ids_below(orders, bound),
    ensures
        ids_below(removed(orders, id), bound),
        removed(orders, id).len() <= orders.len(),
{
    let rest = removed(orders, id);
    lemma_index_of_id(orders, id);
    assert forall|k: int| 0 <= k < rest.len() implies (#[trigger] rest[k]).id < bound by {
        lemma_removed_index(orders, id, k);
        assert(orders[index_before(orders, id, k)].id < bound);
    }
}

/// Putting an order with the identifier `bound` among orders with
/// identifiers below `bound` leaves all identifiers below the next number.
pub proof fn lemma_inserted_ids_below(orders: Seq<Order>, o: Order, bound: u64)
    requires
        ids_below(orders, bound),
        o.id == bound,
        bound < u64::MAX,
    ensures
        ids_below(inserted(orders, o), (bound + 1) as u64),
{
    let r = crate::active_orders::rank(orders, o.id);
    crate::active_orders::lemma_rank_bounds(orders, o.id);
    let ins = inserted(orders, o);
    assert forall|k: int| 0 <= k < ins.len() implies (#[trigger] ins[k]).id < bound + 1 by {
        if k < r {
            assert(ins[k] == orders[k]);
        } else if k > r {
            assert(ins[k] == orders[k - 1]);
        }
    }
}

/// No order has an identifier that is not below the bound.
pub proof fn lemma_ids_below_fresh(orders: Seq<Order>, bound: u64)
    requires
        ids_below(orders, bound),
    ensures
        !has_id(orders, bound),
        removed(orders, bound) == orders,
{
    lemma_index_of_id(orders, bound);
    if has_id(orders, bound) {
        let i = choose|i: int| 0 <= i < orders.len() && (#[trigger] orders[i]).id == bound;
        assert(orders[i].id < bound);
    }
}

/// Whether the resting limit order `o` executes on the update `u`.
pub fn is_executable(o: &Order, u: &MarketUpdate) -> (r: bool)
    ensures
        r == executable(*o, *u),
{
    match o.limit_price() {
        None => false,
        Some(limit) => {
            let price = limit.inner();
            match *u {
                MarketUpdate::Bba { bid, ask } => match o.side() {
                    Side::Buy => ask.inner().le(price),
                    Side::Sell => bid.inner().ge(price),
                },
                MarketUpdate::Trade { price: _, quantity: _, side: _ } => false,
                MarketUpdate::Candle { bid: _, ask: _, low, high } => match o.side() {
                    Side::Buy => low.inner().le(price),
                    Side::Sell => high.inner().ge(price),
                },
            }
        },
    }
}

/// What one more order adds to the fills of the orders before it.
pub proof fn lemma_fill_step(v: AccountView, pending: Seq<Order>, i: int, u: MarketUpdate)
    requires
        0 <= i < pending.len(),
    ensures
        filled_through(v, pending.take(i + 1), u) == if executable(pending[i], u) {
            settled(
                filled_through(v, pending.take(i), u),
                pending[i].id,
                pending[i].side,
                pending[i].size@,
                pending[i].price(),
                true,
            )
        } else {
            filled_through(v, pending.take(i), u)
        },
        executed_orders(pending.take(i + 1), u) == if executable(pending[i], u) {
            executed_orders(pending.take(i), u).push(
                Order { status: OrderStatus::Filled, ..pending[i] },
            )
        } else {
            executed_orders(pending.take(i), u)
        },
        fill_events(v, pending.take(i + 1), u) == if executable(pending[i], u) {
            fill_events(v, pending.take(i), u) + events_of_fill(
                filled_through(v, pending.take(i), u),
                pending[i],
            )
        } else {
            fill_events(v, pending.take(i), u)
        },
{
    let next = pending.take(i + 1);
    assert(next.drop_last() =~= pending.take(i));
    assert(next.last() == pending[i]);
}

/// Fills the resting limit order `o` at its limit price and at the maker
/// fee, and records what the tracker is told.
fn fill_resting_order(
    account: &mut Account,
    o: Order,
    events: &mut Vec<TrackerEvent>,
    bound: u64,
)
    requires
        old(account).wf(),
        o.wf(),
        o.is_limit(),
        ids_below(old(account)@.orders, bound),
        settle_defined(old(account)@, o.id, o.side, o.size@, o.price(), true),
    ensures
        final(account).wf(),
        final(account)@ == settled(old(account)@, o.id, o.side, o.size@, o.price(), true),
        event_views(final(events)@) == event_views(old(events)@) + events_of_fill(
            old(account)@,
            o,
        ),
        ids_below(final(account)@.orders, bound),
        final(account)@.orders.len() <= old(account)@.orders.len(),
        final(account)@.leverage == old(account)@.leverage,
        final(account)@.futures_type == old(account)@.futures_type,
        final(account)@.fee_maker == old(account)@.fee_maker,
        final(account)@.fee_taker == old(account)@.fee_taker,
{
    let ghost before = account@;
    let ghost seen = event_views(events@);
    proof {
        lemma_removed_ids_below(before.orders, o.id, bound);
    }
    let price = o.limit_price().unwrap();
    let outcome = account.settle_filled_order(o, price, true);
    events.push(TrackerEvent::LimitOrderFill);
    events.push(TrackerEvent::Fee { amount: outcome.fee });
    events.push(TrackerEvent::Rpnl { amount: outcome.realized_pnl });
    events.push(TrackerEvent::Trade { side: o.side(), price, size: o.size() });
    proof {
        assert(event_views(events@) =~= seen + events_of_fill(before, o));
    }
}

/// Fills the resting orders that execute on `update`, in ascending order
/// of identifier, each at its limit price and at the maker fee. Returns
/// the filled orders and records what the tracker is told.
fn fill_resting_orders(
    account: &mut Account,
    update: &MarketUpdate,
    events: &mut Vec<TrackerEvent>,
    bound: u64,
) -> (executed: Vec<Order>)
    requires
        old(account).wf(),
        old(events)@.len() == 0,
        ids_below(old(account)@.orders, bound),
        fills_defined(old(account)@, old(account)@.orders, *update),
    ensures
        final(account).wf(),
        final(account)@ == filled_through(old(account)@, old(account)@.orders, *update),
        executed@ == executed_orders(old(account)@.orders, *update),
        event_views(final(events)@) == fill_events(old(account)@, old(account)@.orders, *update),
        ids_below(final(account)@.orders, bound),
        final(account)@.orders.len() <= old(account)@.orders.len(),
        final(account)@.leverage == old(account)@.leverage,
        final(account)@.futures_type == old(account)@.futures_type,
        final(account)@.fee_maker == old(account)@.fee_maker,
        final(account)@.fee_taker == old(account)@.fee_taker,
{
    let ghost v0 = account@;
    let snapshot = copy_orders(account.active_limit_orders());
    let mut executed: Vec<Order> = Vec::new();
    let mut i: usize = 0;
    proof {
        assert(snapshot@.take(0) =~= Seq::<Order>::empty());
        assert(event_views(events@) =~= Seq::<TrackerEventView>::empty());
    }
    while i < snapshot.len()
        invariant
            0 <= i <= snapshot.len(),
            snapshot@ == v0.orders,
            all_limit(snapshot@),
            account.wf(),
            account@ == filled_through(v0, snapshot@.take(i as int), *update),
            executed@ == executed_orders(snapshot@.take(i as int), *update),
            event_views(events@) == fill_events(v0, snapshot@.take(i as int), *update),
            fills_defined(v0, snapshot@, *update),
            ids_below(account@.orders, bound),
            account@.orders.len() <= v0.orders.len(),
            account@.leverage == v0.leverage,
            account@.futures_type == v0.futures_type,
            account@.fee_maker == v0.fee_maker,
            account@.fee_taker == v0.fee_taker,
        decreases snapshot.len() - i,
    {
        let o = snapshot[i];
        proof {
            lemma_fill_step(v0, snapshot@, i as int, *update);
            assert(snapshot@[i as int].wf() && snapshot@[i as int].is_limit());
            assert(fill_defined_at(v0, snapshot@, i as int, *update));
        }
        if is_executable(&o, update) {
            fill_resting_order(account, o, events, bound);
            let mut filled = o;
            filled.mark_filled();
            executed.push(filled);
        }
        i = i + 1;
    }
    proof {
        assert(snapshot@.take(snapshot.len() as int) =~= snapshot@);
    }
    executed
}

/// A simulated exchange for one account.
#[derive(Debug)]
pub struct Exchange {
    /// The settings.
    pub config: Config,
    /// What is known of the market.
    pub market_state: MarketState,
    /// The account.
    pub account: Account,
    /// The admission control.
    pub validator: Validator,
    /// The identifier that the next order gets.
    pub next_order_id: u64,
    /// What the tracker is told of the last operation that changed something.
    pub events: Vec<TrackerEvent>,
}

/// How an exchange stands after an order was submitted, and what was
/// returned: a refused order changes nothing and its error is returned;
/// an admitted order changes the account, is told to the tracker, uses up
/// its identifier, and that identifier is returned.
pub open spec fn submitted(pre: Exchange, post: Exchange, order: Order, r: Result<u64, OrderError>)
    -> bool {
    match pre.submission_verdict(order) {
        Err(e) => r == Err::<u64, OrderError>(e) && post == pre,
        Ok(_) => {
            &&& r == Ok::<u64, OrderError>(pre.next_order_id)
            &&& post.account@ == pre.after_submission(order)
            &&& event_views(post.events@) == pre.submission_events(order)
            &&& post.next_order_id == pre.next_order_id + 1
            &&& post.config == pre.config
            &&& post.market_state == pre.market_state
            &&& post.validator == pre.validator
        },
    }
}

/// How an exchange stands after a market update was taken in, and what
/// was returned: a refused update changes nothing and its error is
/// returned; else the market state follows the update, the account is as
/// `after_tick` says, the tracker is told what `tick_events` says, and the
/// filled orders are returned with the word whether the position was
/// liquidated, which uses up one identifier.
pub open spec fn ticked(
    pre: Exchange,
    post: Exchange,
    timestamp_ns: u64,
    u: MarketUpdate,
    r: Result<(Vec<Order>, bool), Error>,
) -> bool {
    match market_update_verdict(pre.config.price_filter, u) {
        Err(e) => r == Err::<(Vec<Order>, bool), Error>(e) && post == pre,
        Ok(_) => {
            let state = updated(pre.market_state, timestamp_ns, u);
            let v = pre.account@;
            let filled = filled_through(v, v.orders, u);
            &&& r.is_ok()
            &&& r.unwrap().0@ == executed_orders(v.orders, u)
            &&& r.unwrap().1 == liquidation_due(filled, state.bid@, state.ask@)
            &&& post.market_state == state
            &&& post.account@ == after_tick(v, pre.next_order_id, u, state.bid@, state.ask@)
            &&& event_views(post.events@) == tick_events(
                v,
                pre.next_order_id,
                u,
                state.bid@,
                state.ask@,
                timestamp_ns,
                state.mid_price_raw(),
            )
            &&& post.next_order_id == pre.next_order_id + if r.unwrap().1 {
                1int
            } else {
                0int
            }
            &&& post.config == pre.config
        },
    }
}

impl Exchange {
    /// The parts of the exchange are consistent with each other: account
    /// and validator follow the settings, the validator knows the best
    /// prices, the identifiers of the resting orders were all given out,
    /// and no more orders rest than may.
    pub open spec fn wf(&self) -> bool {
        &&& self.config.wf()
        &&& self.market_state.wf()
        &&& self.market_state.price_filter == self.config.price_filter
        &&& self.account.wf()
        &&& self.account@.leverage == self.config.leverage@
        &&& self.account@.futures_type == self.config.futures_type
        &&& self.account@.fee_maker == self.config.fee_maker@
        &&& self.account@.fee_taker == self.config.fee_taker@
        &&& self.validator.fee_maker == self.config.fee_maker
        &&& self.validator.fee_taker == self.config.fee_taker
        &&& self.validator.futures_type == self.config.futures_type
        &&& self.validator.bid == self.market_state.bid
        &&& self.validator.ask == self.market_state.ask
        &&& ids_below(self.account@.orders, self.next_order_id)
        &&& self.account@.orders.len() <= self.config.max_active_limit_orders
    }

    /// The order as it is taken in: with the next identifier and the time of the market.
    pub open spec fn stamped(&self, order: Order) -> Order {
        Order {
            id: self.next_order_id,
            timestamp_ns: self.market_state.current_ts_ns,
            ..order
        }
    }

    /// The price against which the limit price of an order is held, and at
    /// which a market order trades: the ask for a buy, the bid for a sell.
    pub open spec fn price_for(&self, side: Side) -> int {
        match side {
            Side::Buy => self.market_state.ask@,
            Side::Sell => self.market_state.bid@,
        }
    }

    /// The verdict on a submitted order: the quantity filter comes first,
    /// then, for a limit order, the price filter, the number of resting
    /// orders, the limit price against the book and the order margin, and,
    /// for a market order, what it needs against what the account has.
    pub open spec fn submission_verdict(&self, order: Order) -> Result<(), OrderError> {
        let v = self.account@;
        if !quantity_ok(self.config.quantity_filter, order.size@) {
            Err(OrderError::InvalidOrderQuantity)
        } else if order.is_limit() {
            if limit_price_verdict(
                self.config.price_filter,
                order.price(),
                self.price_for(order.side),
            ).is_err() {
                limit_price_verdict(
                    self.config.price_filter,
                    order.price(),
                    self.price_for(order.side),
                )
            } else if v.orders.len() >= self.config.max_active_limit_orders {
                Err(OrderError::MaxActiveOrders)
            } else {
                match self.validator.limit_order_verdict(v, self.stamped(order)) {
                    Ok(delta) => Ok(()),
                    Err(e) => Err(e),
                }
            }
        } else if self.validator.market_order_credit(v, order.side, order.size@) > v.available()
            + self.validator.market_order_debit(v, order.side, order.size@) {
            Err(OrderError::NotEnoughAvailableBalance)
        } else {
            Ok(())
        }
    }

    /// The account after the order was admitted: a limit order rests, a
    /// market order is filled at the best price at the taker fee.
    pub open spec fn after_submission(&self, order: Order) -> AccountView {
        if order.is_limit() {
            appended(self.account@, self.stamped(order))
        } else {
            settled(
                self.account@,
                self.next_order_id,
                order.side,
                order.size@,
                self.price_for(order.side),
                false,
            )
        }
    }

    /// What the tracker is told of an admitted order.
    pub open spec fn submission_events(&self, order: Order) -> Seq<TrackerEventView> {
        if order.is_limit() {
            seq![TrackerEventView::LimitOrderSubmission]
        } else {
            seq![
                TrackerEventView::Fee {
                    amount: fee_raw(
                        self.account@.futures_type,
                        order.size@,
                        self.account@.fee_taker,
                        self.price_for(order.side),
                    ),
                },
                TrackerEventView::Rpnl {
                    amount: settled_pnl(
                        self.account@,
                        self.next_order_id,
                        order.side,
                        order.size@,
                        self.price_for(order.side),
                    ),
                },
                TrackerEventView::Trade {
                    side: order.side,
                    price: self.price_for(order.side),
                    size: order.size@,
                },
            ]
        }
    }

    /// Every step of the submission of the order is representable: for a
    /// limit order the totals of the resting orders together with it, for
    /// a market order that is admitted its settlement.
    pub open spec fn submission_defined(&self, order: Order) -> bool {
        &&& order.is_limit() ==> order_margin_defined(
            with_order(self.account@.orders, self.stamped(order)),
            self.config.futures_type,
            self.config.fee_maker@,
        )
        &&& !order.is_limit() && self.submission_verdict(order).is_ok() ==> settle_defined(
            self.account@,
            self.next_order_id,
            order.side,
            order.size@,
            self.price_for(order.side),
            false,
        )
    }

    /// The order can be taken in: the market has prices, an identifier is
    /// left, and every step of the submission is representable.
    pub open spec fn submission_possible(&self, order: Order) -> bool {
        &&& self.market_state.priced()
        &&& self.next_order_id < u64::MAX
        &&& self.submission_defined(order)
    }

    /// The market update can be taken in: the counters have room, and every
    /// step of an update that is accepted is representable.
    pub open spec fn update_possible(&self, timestamp_ns: u64, u: MarketUpdate) -> bool {
        &&& self.market_state.step < u64::MAX
        &&& self.next_order_id < u64::MAX
        &&& market_update_verdict(self.config.price_filter, u).is_ok() ==> tick_defined(
            self.account@,
            self.next_order_id,
            u,
            updated(self.market_state, timestamp_ns, u).bid@,
            updated(self.market_state, timestamp_ns, u).ask@,
        )
    }

    /// An exchange with a fresh account and a market of which nothing is known yet.
    pub fn new(config: Config) -> (r: Exchange)
        requires
            config.wf(),
        ensures
            r.wf(),
            r.config == config,
            !r.market_state.priced(),
            r.market_state.price_filter == config.price_filter,
            r.market_state.step == 0,
            r.account@.wallet_balance == config.starting_wallet_balance@,
            r.account@.size == 0,
            r.account@.position_margin == 0,
            r.account@.order_margin == 0,
            r.account@.orders == Seq::<Order>::empty(),
            r.next_order_id == 0,
            r.events@.len() == 0,
    {
        Exchange {
            config,
            market_state: MarketState::new(config.price_filter),
            account: Account::new(
                config.leverage,
                config.starting_wallet_balance,
                config.futures_type,
                config.fee_maker,
                config.fee_taker,
            ),
            validator: Validator::new(config.fee_maker, config.fee_taker, config.futures_type),
            next_order_id: 0,
            events: Vec::new(),
        }
    }

    /// The settings.
    pub fn config(&self) -> (r: &Config)
        ensures
            *r == self.config,
    {
        &self.config
    }

    /// What is known of the market.
    pub fn market_state(&self) -> (r: &MarketState)
        ensures
            *r == self.market_state,
    {
        &self.market_state
    }

    /// The best bid.
    pub fn bid(&self) -> (r: QuoteCurrency)
        ensures
            r == self.market_state.bid,
    {
        self.market_state.bid
    }

    /// The best ask.
    pub fn ask(&self) -> (r: QuoteCurrency)
        ensures
            r == self.market_state.ask,
    {
        self.market_state.ask
    }

    /// The account.
    pub fn account(&self) -> (r: &Account)
        ensures
            *r == self.account,
    {
        &self.account
    }

    /// The position of the account.
    pub fn position(&self) -> (r: &Position)
        ensures
            *r == self.account.position,
    {
        &self.account.position
    }

    /// The margin ledger of the account.
    pub fn margin(&self) -> (r: &Margin)
        ensures
            *r == self.account.margin,
    {
        &self.account.margin
    }

    /// The resting limit orders, in ascending order of identifier.
    pub fn active_limit_orders(&self) -> (r: &Vec<Order>)
        ensures
            r@ == self.account.active_limit_orders@,
    {
        &self.account.active_limit_orders
    }

    /// What the tracker is told of the last operation that changed something.
    pub fn events(&self) -> (r: &Vec<TrackerEvent>)
        ensures
            r@ == self.events@,
    {
        &self.events
    }

    /// Takes an order in. It gets the next identifier and the time of the
    /// market. An order that is refused changes nothing. A limit order
    /// that is admitted rests; a market order that is admitted is filled
    /// at once, a buy at the ask and a sell at the bid, at the taker fee.
    /// Returns the identifier of the order.
    ///
    /// The market has to have prices, and every amount that comes up has
    /// to be representable: `can_submit` tests both, and `try_submit_order`
    /// takes the order in only if they hold.
    pub fn submit_order(&mut self, order: Order) -> (r: Result<u64, OrderError>)
        requires
            old(self).wf(),
            order.wf(),
            old(self).submission_possible(order),
        ensures
            final(self).wf(),
            submitted(*old(self), *final(self), order, r),
            order.is_limit() && r.is_ok() ==> final(self).account@.available() >= 0,
    {
        let mut o = order;
        o.set_id(self.next_order_id);
        o.set_timestamp_ns(self.market_state.current_timestamp_ns());
        self.config.quantity_filter.validate_order(&o)?;
        let mark = match o.side() {
            Side::Buy => self.market_state.ask(),
            Side::Sell => self.market_state.bid(),
        };
        match o.limit_price() {
            Some(_) => {
                self.config.price_filter.validate_order(&o, mark)?;
                if self.account.active_limit_orders().len()
                    >= self.config.max_active_limit_orders {
                    return Err(OrderError::MaxActiveOrders);
                }
                proof {
                    lemma_ids_below_fresh(self.account@.orders, o.id);
                    lemma_with_order_valid(self.account@.orders, o);
                }
                let delta = self.validator.validate_limit_order(&o, &self.account)?;
                proof {
                    let v = self.account@;
                    crate::active_orders::lemma_rank_bounds(v.orders, o.id);
                    lemma_order_margin_monotone(
                        v.orders,
                        crate::active_orders::rank(v.orders, o.id),
                        o,
                        v.size,
                        v.futures_type,
                        v.leverage,
                        v.fee_maker,
                    );
                    lemma_inserted_ids_below(v.orders, o, self.next_order_id);
                }
                self.account.append_limit_order(o, delta);
                self.events = Vec::new();
                self.events.push(TrackerEvent::LimitOrderSubmission);
                proof {
                    assert(event_views(self.events@) =~= old(self).submission_events(order));
                }
            },
            None => {
                self.validator.validate_market_order(&o, &self.account)?;
                proof {
                    lemma_removed_ids_below(self.account@.orders, o.id, self.next_order_id);
                }
                let outcome = self.account.settle_filled_order(o, mark, false);
                self.events = Vec::new();
                self.events.push(TrackerEvent::Fee { amount: outcome.fee });
                self.events.push(TrackerEvent::Rpnl { amount: outcome.realized_pnl });
                self.events.push(TrackerEvent::Trade { side: o.side(), price: mark, size: o.size() });
                proof {
                    assert(event_views(self.events@) =~= old(self).submission_events(order));
                }
            },
        }
        let id = self.next_order_id;
        self.next_order_id = self.next_order_id + 1;
        Ok(id)
    }

    /// Cancels the resting order with the identifier `id` and returns it,
    /// marked as cancelled. Without such an order nothing changes.
    pub fn cancel_order(&mut self, id: u64) -> (r: Option<Order>)
        requires
            old(self).wf(),
        ensures
            final(self).wf(),
            r.is_some() <==> has_id(old(self).account@.orders, id),
            r.is_none() ==> *final(self) == *old(self),
            r.is_some() ==> {
                &&& r.unwrap() == (Order {
                    status: OrderStatus::Cancelled,
                    ..old(self).account@.orders[index_of_id(old(self).account@.orders, id)]
                })
                &&& final(self).account@ == cancelled(old(self).account@, id)
                &&& event_views(final(self).events@) == seq![
                    TrackerEventView::LimitOrderCancellation,
                ]
                &&& final(self).next_order_id == old(self).next_order_id
                &&& final(self).config == old(self).config
                &&& final(self).market_state == old(self).market_state
                &&& final(self).validator == old(self).validator
            },
    {
        if crate::active_orders::find_by_id(self.account.active_limit_orders(), id).is_none() {
            return None;
        }
        proof {
            lemma_removed_ids_below(self.account@.orders, id, self.next_order_id);
        }
        match self.account.cancel_order(id) {
            Some(o) => {
                let mut out = o;
                out.mark_cancelled();
                self.events = Vec::new();
                self.events.push(TrackerEvent::LimitOrderCancellation);
                proof {
                    assert(event_views(self.events@) =~= seq![
                        TrackerEventView::LimitOrderCancellation,
                    ]);
                }
                Some(out)
            },
            None => None,
        }
    }

    /// Takes a market update in. An update that is refused changes
    /// nothing. Else the market state follows the update, the resting
    /// orders that execute on it are filled in ascending order of
    /// identifier, each at its limit price and at the maker fee, and the
    /// position is closed at the taker fee, a long at the bid and a short
    /// at the ask, if the unrealized profit and the available balance
    /// together are not positive. Returns the filled orders and whether
    /// the position was liquidated.
    ///
    /// Every amount that comes up has to be representable: `can_update`
    /// tests that, and `try_update_state` takes the update in only if it holds.
    pub fn update_state(&mut self, timestamp_ns: u64, market_update: MarketUpdate) -> (r: Result<
        (Vec<Order>, bool),
        Error,
    >)
        requires
            old(self).wf(),
            old(self).update_possible(timestamp_ns, market_update),
        ensures
            final(self).wf(),
            ticked(*old(self), *final(self), timestamp_ns, market_update, r),
    {
        self.market_state.update_state(timestamp_ns, &market_update)?;
        self.validator.update(self.market_state.bid(), self.market_state.ask());
        let bid = self.market_state.bid();
        let ask = self.market_state.ask();
        let mut events: Vec<TrackerEvent> = Vec::new();
        let executed = fill_resting_orders(
            &mut self.account,
            &market_update,
            &mut events,
            self.next_order_id,
        );
        let ghost filled = self.account@;
        let ghost seen = event_views(events@);
        let upnl = self.account.unrealized_pnl(bid, ask);
        let size = self.account.position().size();
        let deficit: i128 = upnl.raw() as i128 + self.account.available_balance().raw() as i128;
        let liquidated = !size.is_zero() && deficit <= 0;
        if liquidated {
            let (side, price) = if size.is_positive() {
                (Side::Sell, bid)
            } else {
                (Side::Buy, ask)
            };
            let closing = Order {
                id: self.next_order_id,
                side,
                size: size.abs(),
                limit_price: None,
                timestamp_ns: self.market_state.current_timestamp_ns(),
                status: OrderStatus::Filled,
            };
            proof {
                lemma_removed_ids_below(filled.orders, closing.id, self.next_order_id);
            }
            let outcome = self.account.settle_filled_order(closing, price, false);
            events.push(TrackerEvent::Fee { amount: outcome.fee });
            events.push(TrackerEvent::Rpnl { amount: outcome.realized_pnl });
            events.push(TrackerEvent::Trade { side, price, size: closing.size });
            self.next_order_id = self.next_order_id + 1;
            proof {
                assert(event_views(events@) =~= seen + events_of_liquidation(
                    filled,
                    old(self).next_order_id,
                    bid@,
                    ask@,
                ));
            }
        }
        let ghost logged = event_views(events@);
        let rest = self.account.unrealized_pnl(bid, ask);
        let mid = self.market_state.mid_price();
        events.push(TrackerEvent::Update { timestamp_ns, price: mid, upnl: rest });
        proof {
            assert(event_views(events@) =~= logged + seq![
                TrackerEventView::Update { timestamp_ns, price: mid@, upnl: rest@ },
            ]);
        }
        self.events = events;
        Ok((executed, liquidated))
    }
}


/// The same as `fill_defined_at`, kept folded while the fills are worked out.
#[verifier::opaque]
spec fn fill_feasible_at(v: AccountView, pending: Seq<Order>, k: int, u: MarketUpdate) -> bool {
    fill_defined_at(v, pending, k, u)
}

/// If one fill is not representable, not all of them are.
proof fn lemma_fill_not_feasible(v: AccountView, pending: Seq<Order>, i: int, u: MarketUpdate)
    requires
        0 <= i < pending.len(),
        !fill_feasible_at(v, pending, i, u),
    ensures
        !fills_defined(v, pending, u),
{
    reveal(fill_feasible_at);
    assert(!fill_defined_at(v, pending, i, u));
}

/// If every fill is representable, all of them are.
proof fn lemma_fills_feasible(v: AccountView, pending: Seq<Order>, u: MarketUpdate)
    requires
        forall|k: int| 0 <= k < pending.len() ==> #[trigger] fill_feasible_at(v, pending, k, u),
    ensures
        fills_defined(v, pending, u),
{
    reveal(fill_feasible_at);
    assert forall|k: int| 0 <= k < pending.len() implies #[trigger] fill_defined_at(
        v,
        pending,
        k,
        u,
    ) by {
        assert(fill_feasible_at(v, pending, k, u));
    }
}

/// An order that does not execute stands in the way of nothing.
proof fn lemma_fill_idle(v: AccountView, pending: Seq<Order>, i: int, u: MarketUpdate)
    requires
        0 <= i < pending.len(),
        !executable(pending[i], u),
    ensures
        fill_feasible_at(v, pending, i, u),
{
    reveal(fill_feasible_at);
}

/// Fills the order at index `i` of `pending`, which executes, at its limit
/// price and at the maker fee if that is representable, and says whether
/// it was.
fn fill_if_representable(
    scratch: &mut Account,
    o: Order,
    Ghost(v): Ghost<AccountView>,
    Ghost(pending): Ghost<Seq<Order>>,
    Ghost(i): Ghost<int>,
    Ghost(u): Ghost<MarketUpdate>,
) -> (ok: bool)
    requires
        old(scratch).wf(),
        o.wf(),
        o.is_limit(),
        0 <= i < pending.len(),
        pending[i] == o,
        executable(o, u),
        old(scratch)@ == filled_through(v, pending.take(i), u),
    ensures
        ok == fill_feasible_at(v, pending, i, u),
        ok ==> final(scratch)@ == settled(old(scratch)@, o.id, o.side, o.size@, o.price(), true),
        final(scratch).wf(),
{
    proof {
        reveal(fill_feasible_at);
    }
    let price = o.limit_price().unwrap();
    if !scratch.settle_representable(&o, price, true) {
        return false;
    }
    let _ = scratch.settle_filled_order(o, price, true);
    true
}

/// The account after the resting orders that execute on `update` were
/// filled, worked out on a copy; `None` if a fill is not representable.
fn fills_on_copy(account: &Account, update: &MarketUpdate) -> (r: Option<Account>)
    requires
        account.wf(),
    ensures
        r.is_some() <==> fills_defined(account@, account@.orders, *update),
        r.is_some() ==> r.unwrap().wf() && r.unwrap()@ == filled_through(
            account@,
            account@.orders,
            *update,
        ),
{
    let ghost v0 = account@;
    let mut scratch = account.copy();
    let snapshot = copy_orders(account.active_limit_orders());
    let mut i: usize = 0;
    proof {
        assert(snapshot@.take(0) =~= Seq::<Order>::empty());
    }
    while i < snapshot.len()
        invariant
            0 <= i <= snapshot.len(),
            v0 == account@,
            snapshot@ == v0.orders,
            all_limit(snapshot@),
            scratch.wf(),
            scratch@ == filled_through(v0, snapshot@.take(i as int), *update),
            forall|k: int| 0 <= k < i ==> #[trigger] fill_feasible_at(v0, snapshot@, k, *update),
        decreases snapshot.len() - i,
    {
        let o = snapshot[i];
        proof {
            lemma_fill_step(v0, snapshot@, i as int, *update);
            assert(snapshot@[i as int].wf() && snapshot@[i as int].is_limit());
        }
        if is_executable(&o, update) {
            let ok = fill_if_representable(
                &mut scratch,
                o,
                Ghost(v0),
                Ghost(snapshot@),
                Ghost(i as int),
                Ghost(*update),
            );
            if !ok {
                proof {
                    lemma_fill_not_feasible(v0, snapshot@, i as int, *update);
                }
                return None;
            }
        } else {
            proof {
                lemma_fill_idle(v0, snapshot@, i as int, *update);
            }
        }
        i = i + 1;
    }
    proof {
        assert(snapshot@.take(snapshot.len() as int) =~= snapshot@);
        lemma_fills_feasible(v0, snapshot@, *update);
    }
    Some(scratch)
}

impl Exchange {
    /// Whether the order can be taken in.
    pub fn can_submit(&self, order: &Order) -> (r: bool)
        requires
            self.wf(),
            order.wf(),
        ensures
            r == self.submission_possible(*order),
    {
        if !self.market_state.bid().inner().is_positive() || self.next_order_id == u64::MAX {
            return false;
        }
        let mut o = *order;
        o.set_id(self.next_order_id);
        o.set_timestamp_ns(self.market_state.current_timestamp_ns());
        match o.limit_price() {
            Some(_) => {
                let mut candidates = copy_orders(self.account.active_limit_orders());
                proof {
                    lemma_ids_below_fresh(self.account@.orders, o.id);
                    lemma_with_order_valid(self.account@.orders, o);
                }
                crate::active_orders::insert_sorted(&mut candidates, o);
                order_margin_representable(
                    &candidates,
                    self.config.futures_type,
                    self.config.fee_maker,
                )
            },
            None => {
                if self.config.quantity_filter.validate_order(&o).is_err() {
                    return true;
                }
                if self.validator.validate_market_order(&o, &self.account).is_err() {
                    return true;
                }
                let mark = match o.side() {
                    Side::Buy => self.market_state.ask(),
                    Side::Sell => self.market_state.bid(),
                };
                self.account.settle_representable(&o, mark, false)
            },
        }
    }

    /// Whether the market update can be taken in.
    pub fn can_update(&self, timestamp_ns: u64, market_update: &MarketUpdate) -> (r: bool)
        requires
            self.wf(),
        ensures
            r == self.update_possible(timestamp_ns, *market_update),
    {
        if self.market_state.step() == u64::MAX || self.next_order_id == u64::MAX {
            return false;
        }
        let mut state = self.market_state;
        if state.update_state(timestamp_ns, market_update).is_err() {
            return true;
        }
        let bid = state.bid();
        let ask = state.ask();
        let scratch = match fills_on_copy(&self.account, market_update) {
            Some(scratch) => scratch,
            None => {
                return false;
            },
        };
        let size = scratch.position().size();
        let ft = scratch.position().futures_type();
        let entry = scratch.position().entry_price();
        let upnl = if size.is_positive() {
            if !bid.inner().is_positive() {
                return false;
            }
            match crate::currency::checked_pnl(ft, entry, bid, size) {
                Some(p) => p,
                None => {
                    return false;
                },
            }
        } else if size.is_negative() {
            if !ask.inner().is_positive() {
                return false;
            }
            match crate::currency::checked_pnl(ft, entry, ask, size) {
                Some(p) => p,
                None => {
                    return false;
                },
            }
        } else {
            Decimal::zero()
        };
        let deficit: i128 = upnl.raw() as i128 + scratch.available_balance().raw() as i128;
        if !size.is_zero() && deficit <= 0 {
            let (side, price) = if size.is_positive() {
                (Side::Sell, bid)
            } else {
                (Side::Buy, ask)
            };
            let closing = Order {
                id: self.next_order_id,
                side,
                size: size.abs(),
                limit_price: None,
                timestamp_ns: state.current_timestamp_ns(),
                status: OrderStatus::Filled,
            };
            return scratch.settle_representable(&closing, price, false);
        }
        true
    }

    /// Takes an order in, as `submit_order` does, if it can be taken in;
    /// else nothing changes and `None` is returned.
    pub fn try_submit_order(&mut self, order: Order) -> (r: Option<Result<u64, OrderError>>)
        requires
            old(self).wf(),
            order.wf(),
        ensures
            final(self).wf(),
            r.is_some() <==> old(self).submission_possible(order),
            r.is_none() ==> *final(self) == *old(self),
            r.is_some() ==> submitted(*old(self), *final(self), order, r.unwrap()),
    {
        if !self.can_submit(&order) {
            return None;
        }
        Some(self.submit_order(order))
    }

    /// Takes a market update in, as `update_state` does, if it can be
    /// taken in; else nothing changes and `None` is returned.
    pub fn try_update_state(&mut self, timestamp_ns: u64, market_update: MarketUpdate) -> (r:
        Option<Result<(Vec<Order>, bool), Error>>)
        requires
            old(self).wf(),
        ensures
            final(self).wf(),
            r.is_some() <==> old(self).update_possible(timestamp_ns, market_update),
            r.is_none() ==> *final(self) == *old(self),
            r.is_some() ==> ticked(
                *old(self),
                *final(self),
                timestamp_ns,
                market_update,
                r.unwrap(),
            ),
    {
        if !self.can_update(timestamp_ns, &market_update) {
            return None;
        }
        Some(self.update_state(timestamp_ns, market_update))
    }
}

} // verus!
