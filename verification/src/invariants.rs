//! What holds of every account and of every run of the exchange, and what
//! the general definitions come to for a single resting order.

use vstd::prelude::*;
use crate::account::{AccountView, settle_defined, settled, signed,
    lemma_order_margin_in_range};
use crate::active_orders::{has_id, index_before, index_of_id, inserted, rank, removed,
    sorted_by_id, with_order,
    lemma_index_of_id, lemma_index_of_id_unique, lemma_removed_index, lemma_removed_sorted};
use crate::currency::{fee_defined, fee_raw, notional_raw, pnl_raw, lemma_leveraged,
    lemma_notional_nonneg};
use crate::decimal::{div_raw, in_range, scale, lemma_div_round_exact};
use crate::exchange::{TrackerEventView, after_tick, events_of_fill, executable,
    executed_orders, fill_defined_at, fill_events, filled_through, fills_defined,
    liquidation_due, tick_events};
use crate::market_update::MarketUpdate;
use crate::order::Order;
use crate::order_margin::{fee_of, notional_on, offset_for, order_margin_defined,
    order_margin_raw, remaining_notional, size_on, sum_by, lemma_remaining_notional_bounds};
use crate::side::{FuturesType, OrderStatus, Side};
use crate::errors::OrderError;
use crate::exchange::Exchange;
use crate::validator::{Validator, opposite};

verus! {

/// In every account the available balance, the position margin and the
/// order margin make up the wallet.
pub proof fn lemma_balances_make_up_wallet(v: AccountView)
    ensures
        v.available() + v.position_margin + v.order_margin == v.wallet_balance,
{
}

/// In every consistent account neither the position margin nor the order
/// margin is negative, and the order margin is what the resting orders and
/// the position call for.
pub proof fn lemma_margins_of_consistent_account(v: AccountView)
    requires
        v.wf(),
    ensures
        v.position_margin >= 0,
        v.order_margin >= 0,
        v.order_margin == order_margin_raw(
            v.orders,
            v.size,
            v.futures_type,
            v.leverage,
            v.fee_maker,
        ),
{
    lemma_order_margin_in_range(v.orders, v.size, v.futures_type, v.leverage, v.fee_maker);
}

/// A limit order that is admitted leaves the available balance not
/// negative once its cost is tied to the resting orders, and the three
/// parts still make up the wallet.
pub proof fn lemma_admitted_limit_order(validator: Validator, v: AccountView, o: Order)
    requires
        validator.limit_order_verdict(v, o).is_ok(),
    ensures
        ({
            let delta = validator.limit_order_delta(v, o);
            &&& validator.limit_order_verdict(v, o) == Ok::<int, OrderError>(delta)
            &&& v.available() - delta >= 0
            &&& (v.available() - delta) + v.position_margin + (v.order_margin + delta)
                == v.wallet_balance
        }),
{
}

/// A market order that is admitted needs no more than the available
/// balance beyond what it gives back.
pub proof fn lemma_admitted_market_order(x: Exchange, order: Order)
    requires
        !order.is_limit(),
        x.submission_verdict(order).is_ok(),
    ensures
        x.validator.market_order_credit(x.account@, order.side, order.size@)
            - x.validator.market_order_debit(x.account@, order.side, order.size@)
            <= x.account@.available(),
{
}

/// Opening a position from flat with one fill and closing all of it with a
/// second fill leaves the account flat, and the wallet has changed by the
/// profit between the two prices less the two fees.
pub proof fn lemma_round_trip(
    v: AccountView,
    open_id: u64,
    close_id: u64,
    side: Side,
    qty: int,
    open_price: int,
    close_price: int,
    open_maker: bool,
    close_maker: bool,
)
    requires
        v.size == 0,
        qty > 0,
    ensures
        ({
            let opened = settled(v, open_id, side, qty, open_price, open_maker);
            let closed = settled(opened, close_id, opposite(side), qty, close_price, close_maker);
            &&& opened.size == signed(side, qty)
            &&& opened.entry_price == open_price
            &&& closed.size == 0
            &&& closed.wallet_balance == v.wallet_balance - fee_raw(
                v.futures_type,
                qty,
                v.fee_rate(open_maker),
                open_price,
            ) - fee_raw(v.futures_type, qty, v.fee_rate(close_maker), close_price) + pnl_raw(
                v.futures_type,
                open_price,
                close_price,
                signed(side, qty),
            )
        }),
{
}

/// The orders that are left after the first `k` resting orders had their
/// turn were all resting before, and those among them that had their turn
/// do not execute.
pub open spec fn survivors(rest: Seq<Order>, pending: Seq<Order>, k: int, u: MarketUpdate) -> bool {
    forall|i: int|
        0 <= i < rest.len() ==> 0 <= index_of_id(pending, (#[trigger] rest[i]).id) < pending.len()
            && pending[index_of_id(pending, rest[i].id)] == rest[i] && (index_of_id(
            pending,
            rest[i].id,
        ) < k ==> !executable(rest[i], u))
}

/// Taking an order out of orders that were resting before leaves orders
/// that were resting before.
proof fn lemma_survivors_removed(
    rest: Seq<Order>,
    pending: Seq<Order>,
    k: int,
    u: MarketUpdate,
    id: u64,
)
    requires
        sorted_by_id(rest),
        survivors(rest, pending, k, u),
    ensures
        survivors(removed(rest, id), pending, k, u),
        sorted_by_id(removed(rest, id)),
        !has_id(removed(rest, id), id),
{
    lemma_removed_sorted(rest, id);
    let left = removed(rest, id);
    assert forall|i: int| 0 <= i < left.len() implies 0 <= index_of_id(
        pending,
        (#[trigger] left[i]).id,
    ) < pending.len() && pending[index_of_id(pending, left[i].id)] == left[i] && (index_of_id(
        pending,
        left[i].id,
    ) < k ==> !executable(left[i], u)) by {
        lemma_removed_index(rest, id, i);
        let m = index_before(rest, id, i);
        assert(left[i] == rest[m]);
    }
}

/// After the first `k` resting orders had their turn, the orders that are
/// left are in ascending order of identifier, were all resting before, and
/// those among them that had their turn do not execute.
pub proof fn lemma_filled_through_survivors(v: AccountView, k: int, u: MarketUpdate)
    requires
        sorted_by_id(v.orders),
        0 <= k <= v.orders.len(),
    ensures
        sorted_by_id(filled_through(v, v.orders.take(k), u).orders),
        survivors(filled_through(v, v.orders.take(k), u).orders, v.orders, k, u),
    decreases k,
{
    let pending = v.orders;
    if k == 0 {
        assert(pending.take(0) =~= Seq::<Order>::empty());
        assert forall|i: int| 0 <= i < pending.len() implies index_of_id(
            pending,
            (#[trigger] pending[i]).id,
        ) == i by {
            lemma_index_of_id_unique(pending, i);
        }
    } else {
        lemma_filled_through_survivors(v, k - 1, u);
        crate::exchange::lemma_fill_step(v, pending, k - 1, u);
        let before = filled_through(v, pending.take(k - 1), u);
        let o = pending[k - 1];
        lemma_index_of_id_unique(pending, k - 1);
        if executable(o, u) {
            lemma_survivors_removed(before.orders, pending, k - 1, u, o.id);
            let left = removed(before.orders, o.id);
            assert forall|i: int| 0 <= i < left.len() implies index_of_id(
                pending,
                (#[trigger] left[i]).id,
            ) != k - 1 by {
                if index_of_id(pending, left[i].id) == k - 1 {
                    assert(pending[k - 1] == left[i]);
                    assert(has_id(left, o.id));
                }
            }
        } else {
            let rest = before.orders;
            assert forall|i: int| 0 <= i < rest.len() && index_of_id(
                pending,
                (#[trigger] rest[i]).id,
            ) == k - 1 implies !executable(rest[i], u) by {
                assert(pending[k - 1] == rest[i]);
            }
        }
    }
}

/// Orders of which none executes are passed over: no fill, no event, no change.
pub proof fn lemma_nothing_executes(v: AccountView, pending: Seq<Order>, u: MarketUpdate)
    requires
        forall|i: int| 0 <= i < pending.len() ==> !executable(#[trigger] pending[i], u),
    ensures
        filled_through(v, pending, u) == v,
        executed_orders(pending, u) == Seq::<Order>::empty(),
        fill_events(v, pending, u) == Seq::<TrackerEventView>::empty(),
    decreases pending.len(),
{
    if pending.len() > 0 {
        let init = pending.drop_last();
        assert forall|i: int| 0 <= i < init.len() implies !executable(#[trigger] init[i], u) by {
            assert(init[i] == pending[i]);
        }
        lemma_nothing_executes(v, init, u);
        assert(!executable(pending[pending.len() - 1], u));
    }
}

/// A market update that is taken in a second time finds nothing to do:
/// after the first time no resting order executes on it and the position
/// is not liquidated, so the account stays as it is and the tracker is
/// told of the update alone.
pub proof fn lemma_second_update_is_idle(
    v: AccountView,
    first_id: u64,
    second_id: u64,
    u: MarketUpdate,
    bid: int,
    ask: int,
    timestamp_ns: u64,
    mid: int,
)
    requires
        v.wf(),
    ensures
        ({
            let once = after_tick(v, first_id, u, bid, ask);
            &&& executed_orders(once.orders, u) == Seq::<Order>::empty()
            &&& !liquidation_due(filled_through(once, once.orders, u), bid, ask)
            &&& after_tick(once, second_id, u, bid, ask) == once
            &&& tick_events(once, second_id, u, bid, ask, timestamp_ns, mid) == seq![
                TrackerEventView::Update {
                    timestamp_ns,
                    price: mid,
                    upnl: once.unrealized_pnl(bid, ask),
                },
            ]
        }),
{
    let filled = filled_through(v, v.orders, u);
    let once = after_tick(v, first_id, u, bid, ask);
    lemma_filled_through_survivors(v, v.orders.len() as int, u);
    assert(v.orders.take(v.orders.len() as int) =~= v.orders);
    assert forall|i: int| 0 <= i < filled.orders.len() implies !executable(
        #[trigger] filled.orders[i],
        u,
    ) by {
        lemma_index_of_id(v.orders, filled.orders[i].id);
    }
    if liquidation_due(filled, bid, ask) {
        let left = removed(filled.orders, first_id);
        assert(once.orders == left);
        assert forall|i: int| 0 <= i < left.len() implies !executable(#[trigger] left[i], u) by {
            lemma_removed_index(filled.orders, first_id, i);
            let m = index_before(filled.orders, first_id, i);
            assert(left[i] == filled.orders[m]);
        }
        assert(once.size == 0);
    } else {
        assert(once == filled);
    }
    lemma_nothing_executes(once, once.orders, u);
    assert(Seq::<TrackerEventView>::empty() + Seq::<TrackerEventView>::empty() + seq![
        TrackerEventView::Update {
            timestamp_ns,
            price: mid,
            upnl: once.unrealized_pnl(bid, ask),
        },
    ] =~= seq![
        TrackerEventView::Update {
            timestamp_ns,
            price: mid,
            upnl: once.unrealized_pnl(bid, ask),
        },
    ]);
}

/// Nothing can be taken out of no orders, and an order that is put among
/// no orders stands alone.
pub proof fn lemma_first_order(o: Order, id: u64)
    ensures
        removed(Seq::<Order>::empty(), id) == Seq::<Order>::empty(),
        inserted(Seq::<Order>::empty(), o) == seq![o],
        with_order(Seq::<Order>::empty(), o) == seq![o],
        removed(seq![o], o.id) == Seq::<Order>::empty(),
        id != o.id ==> removed(seq![o], id) == seq![o],
{
    let e = Seq::<Order>::empty();
    assert(index_of_id(e, id) == -1);
    assert(index_of_id(e, o.id) == -1);
    assert(rank(e, o.id) == 0);
    assert(e.insert(0, o) =~= seq![o]);
    let s = seq![o];
    assert(s.last() == o);
    assert(index_of_id(s, o.id) == 0);
    assert(s.remove(0) =~= e);
    if id != o.id {
        assert(s.drop_last() =~= e);
        assert(index_of_id(s.drop_last(), id) == -1);
        assert(index_of_id(s, id) == -1);
    }
}

/// The sum over a single order is its term.
pub proof fn lemma_sum_by_single(o: Order, f: spec_fn(Order) -> int)
    ensures
        sum_by(seq![o], f) == f(o),
        sum_by(Seq::<Order>::empty(), f) == 0,
{
    let s = seq![o];
    assert(s.drop_last() =~= Seq::<Order>::empty());
    assert(s.last() == o);
    assert(sum_by(s.drop_last(), f) == 0);
}

/// The order margin of a single limit order: what is left of its value
/// once the position is taken off, over the leverage, plus its fee.
pub proof fn lemma_order_margin_single(
    o: Order,
    position_size: int,
    ft: FuturesType,
    lev: int,
    fee: int,
)
    requires
        o.wf(),
        o.is_limit(),
        lev >= scale(),
    ensures
        order_margin_raw(seq![o], position_size, ft, lev, fee) == div_raw(
            remaining_notional(
                o.size@,
                notional_raw(ft, o.size@, o.price()),
                offset_for(o.side, position_size),
            ),
            lev,
        ) + fee_raw(ft, o.size@, fee, o.price()),
        order_margin_defined(seq![o], ft, fee) <==> in_range(
            notional_raw(ft, o.size@, o.price()),
        ) && fee_defined(ft, o.size@, fee, o.price()) && in_range(
            notional_raw(ft, o.size@, o.price()) + fee_raw(ft, o.size@, fee, o.price()),
        ),
{
    let s = seq![o];
    lemma_sum_by_single(o, size_on(Side::Buy));
    lemma_sum_by_single(o, size_on(Side::Sell));
    lemma_sum_by_single(o, notional_on(Side::Buy, ft));
    lemma_sum_by_single(o, notional_on(Side::Sell, ft));
    lemma_sum_by_single(o, fee_of(ft, fee));
    lemma_notional_nonneg(ft, o.size@, o.price());
    let value = notional_raw(ft, o.size@, o.price());
    lemma_remaining_notional_bounds(o.size@, value, offset_for(o.side, position_size));
    let left = remaining_notional(o.size@, value, offset_for(o.side, position_size));
    lemma_leveraged(left, left, lev);
    assert(0 * scale() == 0);
    lemma_div_round_exact(0, lev);
    assert(s[0] == o);
    if fee_defined(ft, o.size@, fee, o.price()) && in_range(value) && in_range(
        value + fee_raw(ft, o.size@, fee, o.price()),
    ) {
        assert forall|i: int| 0 <= i < s.len() implies in_range(
            notional_raw(ft, (#[trigger] s[i]).size@, s[i].price()),
        ) && fee_defined(ft, s[i].size@, fee, s[i].price()) by {
            assert(s[i] == o);
        }
    }
}

/// What a market update does to a single resting order: it is filled if
/// it executes, and left alone if not.
pub proof fn lemma_single_fill(v: AccountView, o: Order, u: MarketUpdate)
    ensures
        filled_through(v, seq![o], u) == if executable(o, u) {
            settled(v, o.id, o.side, o.size@, o.price(), true)
        } else {
            v
        },
        filled_through(v, Seq::<Order>::empty(), u) == v,
        executed_orders(seq![o], u) == if executable(o, u) {
            seq![(Order { status: OrderStatus::Filled, ..o })]
        } else {
            Seq::<Order>::empty()
        },
        fill_events(v, seq![o], u) == if executable(o, u) {
            events_of_fill(v, o)
        } else {
            Seq::<TrackerEventView>::empty()
        },
        fills_defined(v, seq![o], u) <==> (executable(o, u) ==> settle_defined(
            v,
            o.id,
            o.side,
            o.size@,
            o.price(),
            true,
        )),
        fills_defined(v, Seq::<Order>::empty(), u),
{
    let s = seq![o];
    let e = Seq::<Order>::empty();
    assert(s.drop_last() =~= e);
    assert(s.last() == o);
    assert(s.take(0) =~= e);
    assert(filled_through(v, e, u) == v);
    assert(executed_orders(e, u) =~= Seq::<Order>::empty());
    assert(fill_events(v, e, u) =~= Seq::<TrackerEventView>::empty());
    assert(Seq::<Order>::empty().push(Order { status: OrderStatus::Filled, ..o }) =~= seq![
        (Order { status: OrderStatus::Filled, ..o }),
    ]);
    assert(Seq::<TrackerEventView>::empty() + events_of_fill(v, o) =~= events_of_fill(v, o));
    assert(s[0] == o);
    assert(fill_defined_at(v, s, 0, u) <==> (executable(o, u) ==> settle_defined(
        v,
        o.id,
        o.side,
        o.size@,
        o.price(),
        true,
    )));
    if fill_defined_at(v, s, 0, u) {
        assert forall|k: int| 0 <= k < s.len() implies #[trigger] fill_defined_at(v, s, k, u) by {
            assert(k == 0);
        }
    }
}

} // verus!
