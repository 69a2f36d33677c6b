//! The collateral that the resting limit orders of an account tie up.
//!
//! Buys and sells cannot both enlarge the position, so only the dearer side
//! counts; orders that merely close the position need no collateral; and
//! every order reserves its maker fee.

use vstd::prelude::*;
use crate::currency::{Fee, Leverage, checked_fee_amount, checked_notional, fee_amount,
    fee_defined, fee_raw, notional, notional_raw,
    lemma_leveraged, lemma_notional_nonneg};
use crate::decimal::{Decimal, div_raw, div_round, div_round_exec, in_range, mul_raw, scale,
    lemma_div_round_exact, lemma_div_round_monotone, lemma_div_round_nonneg};
use crate::order::Order;
use crate::price_filter::lemma_mul_raw_nonneg;
use crate::side::{FuturesType, Side};

verus! {

/// The sum of `f` over the orders.
pub open spec fn sum_by(orders: Seq<Order>, f: spec_fn(Order) -> int) -> int
    decreases orders.len(),
{
    if orders.len() == 0 {
        0
    } else {
        sum_by(orders.drop_last(), f) + f(orders.last())
    }
}

/// The size of an order on `side`, zero for one on the other side.
pub open spec fn size_on(side: Side) -> spec_fn(Order) -> int {
    |o: Order|
        if o.side == side {
            o.size@
        } else {
            0
        }
}

/// The value of an order on `side` at its limit price, zero for one on the other side.
pub open spec fn notional_on(side: Side, ft: FuturesType) -> spec_fn(Order) -> int {
    |o: Order|
        if o.side == side {
            notional_raw(ft, o.size@, o.price())
        } else {
            0
        }
}

/// The maker fee of an order at its limit price.
pub open spec fn fee_of(ft: FuturesType, fee: int) -> spec_fn(Order) -> int {
    |o: Order| fee_raw(ft, o.size@, fee, o.price())
}

/// Every order is a well-formed limit order.
pub open spec fn all_limit(orders: Seq<Order>) -> bool {
    forall|i: int| 0 <= i < orders.len() ==> (#[trigger] orders[i]).wf() && orders[i].is_limit()
}

/// The part of the position that orders on `side` would close: the short
/// for buys, the long for sells.
pub open spec fn offset_for(side: Side, position_size: int) -> int {
    match side {
        Side::Buy => if position_size < 0 {
            -position_size
        } else {
            0
        },
        Side::Sell => if position_size > 0 {
            position_size
        } else {
            0
        },
    }
}

/// The value of the orders of one side that is left once `offset`
/// contracts, valued at the average price of that side, are taken off:
/// `(size - offset) * notional / size`, rounded, and zero if nothing is left.
pub open spec fn remaining_notional(size: int, notional: int, offset: int) -> int {
    if size <= offset || size <= 0 {
        0
    } else {
        div_round((size - offset) * notional, size)
    }
}

/// The collateral that the orders of one side need.
pub open spec fn side_margin(
    orders: Seq<Order>,
    side: Side,
    position_size: int,
    ft: FuturesType,
    lev: int,
) -> int {
    div_raw(
        remaining_notional(
            sum_by(orders, size_on(side)),
            sum_by(orders, notional_on(side, ft)),
            offset_for(side, position_size),
        ),
        lev,
    )
}

/// The collateral that all resting limit orders tie up: the larger of the
/// needs of the two sides, plus the maker fee of every order.
pub open spec fn order_margin_raw(
    orders: Seq<Order>,
    position_size: int,
    ft: FuturesType,
    lev: int,
    fee: int,
) -> int {
    let buy = side_margin(orders, Side::Buy, position_size, ft, lev);
    let sell = side_margin(orders, Side::Sell, position_size, ft, lev);
    (if buy >= sell {
        buy
    } else {
        sell
    }) + sum_by(orders, fee_of(ft, fee))
}

/// The totals that the order margin is computed from are representable:
/// the value and the fee of every order, the size of each side, and the
/// value of each side together with all fees.
pub open spec fn order_margin_defined(orders: Seq<Order>, ft: FuturesType, fee: int) -> bool {
    &&& forall|i: int|
        0 <= i < orders.len() ==> in_range(
            notional_raw(ft, (#[trigger] orders[i]).size@, orders[i].price()),
        ) && fee_defined(ft, orders[i].size@, fee, orders[i].price())
    &&& in_range(sum_by(orders, size_on(Side::Buy)))
    &&& in_range(sum_by(orders, size_on(Side::Sell)))
    &&& in_range(sum_by(orders, notional_on(Side::Buy, ft)) + sum_by(orders, fee_of(ft, fee)))
    &&& in_range(sum_by(orders, notional_on(Side::Sell, ft)) + sum_by(orders, fee_of(ft, fee)))
}

/// A sum of terms that are not negative is not negative and grows with the sequence.
pub proof fn lemma_sum_by_nonneg(orders: Seq<Order>, f: spec_fn(Order) -> int)
    requires
        forall|i: int| 0 <= i < orders.len() ==> f(#[trigger] orders[i]) >= 0,
    ensures
        sum_by(orders, f) >= 0,
        forall|k: int| 0 <= k <= orders.len() ==> 0 <= sum_by(#[trigger] orders.take(k), f) <= sum_by(orders, f),
    decreases orders.len(),
{
    if orders.len() == 0 {
        assert forall|k: int| 0 <= k <= orders.len() implies 0 <= sum_by(
            #[trigger] orders.take(k),
            f,
        ) <= sum_by(orders, f) by {
            assert(orders.take(k) =~= orders);
        }
    } else {
        let init = orders.drop_last();
        assert forall|i: int| 0 <= i < init.len() implies f(#[trigger] init[i]) >= 0 by {
            assert(init[i] == orders[i]);
        }
        lemma_sum_by_nonneg(init, f);
        assert(f(orders[orders.len() - 1]) >= 0);
        assert forall|k: int| 0 <= k <= orders.len() implies 0 <= sum_by(
            #[trigger] orders.take(k),
            f,
        ) <= sum_by(orders, f) by {
            if k == orders.len() {
                assert(orders.take(k) =~= orders);
            } else {
                assert(orders.take(k) =~= init.take(k));
            }
        }
    }
}

/// Adding one order anywhere adds its term to the sum.
pub proof fn lemma_sum_by_insert(orders: Seq<Order>, f: spec_fn(Order) -> int, i: int, o: Order)
    requires
        0 <= i <= orders.len(),
    ensures
        sum_by(orders.insert(i, o), f) == sum_by(orders, f) + f(o),
    decreases orders.len(),
{
    let ins = orders.insert(i, o);
    if i == orders.len() {
        assert(ins.drop_last() =~= orders);
        assert(ins.last() == o);
    } else {
        assert(ins.drop_last() =~= orders.drop_last().insert(i, o));
        assert(ins.last() == orders.last());
        lemma_sum_by_insert(orders.drop_last(), f, i, o);
    }
}

/// Taking one order out takes its term out of the sum.
pub proof fn lemma_sum_by_remove(orders: Seq<Order>, f: spec_fn(Order) -> int, i: int)
    requires
        0 <= i < orders.len(),
    ensures
        sum_by(orders.remove(i), f) == sum_by(orders, f) - f(orders[i]),
{
    let rest = orders.remove(i);
    assert(rest.insert(i, orders[i]) =~= orders);
    lemma_sum_by_insert(rest, f, i, orders[i]);
}

/// The terms of the three sums are not negative for well-formed limit orders.
pub proof fn lemma_terms_nonneg(o: Order, side: Side, ft: FuturesType, fee: int)
    requires
        o.wf(),
        o.is_limit(),
        fee >= 0,
    ensures
        size_on(side)(o) >= 0,
        notional_on(side, ft)(o) >= 0,
        fee_of(ft, fee)(o) >= 0,
{
    lemma_notional_nonneg(ft, o.size@, o.price());
    lemma_mul_raw_nonneg(o.size@, fee);
    lemma_notional_nonneg(ft, mul_raw(o.size@, fee), o.price());
}

/// What is left of a side is not negative and at most the whole of it.
pub proof fn lemma_remaining_notional_bounds(size: int, notional: int, offset: int)
    requires
        size >= 0,
        notional >= 0,
        offset >= 0,
    ensures
        0 <= remaining_notional(size, notional, offset) <= notional,
{
    if !(size <= offset || size <= 0) {
        let rem = size - offset;
        assert(0 <= rem * notional <= size * notional) by (nonlinear_arith)
            requires
                0 < rem <= size,
                notional >= 0,
        ;
        lemma_div_round_nonneg(rem * notional, size);
        assert((rem * notional) * size <= (notional * size) * size) by (nonlinear_arith)
            requires
                rem * notional <= size * notional,
                size > 0,
        ;
        lemma_div_round_monotone(rem * notional, size, notional * size, size);
        lemma_div_round_exact(notional, size);
    }
}

/// What is left of a side does not shrink when an order joins that side.
pub proof fn lemma_remaining_notional_monotone(
    size: int,
    notional: int,
    offset: int,
    q: int,
    n: int,
)
    requires
        size >= 0,
        notional >= 0,
        offset >= 0,
        q >= 0,
        n >= 0,
    ensures
        remaining_notional(size, notional, offset) <= remaining_notional(
            size + q,
            notional + n,
            offset,
        ),
{
    lemma_remaining_notional_bounds(size + q, notional + n, offset);
    if !(size <= offset || size <= 0) {
        let rem = size - offset;
        // rem * notional / size <= (rem + q) * (notional + n) / (size + q)
        assert((rem * notional) * (size + q) <= ((rem + q) * (notional + n)) * size)
            by (nonlinear_arith)
            requires
                0 < rem <= size,
                notional >= 0,
                q >= 0,
                n >= 0,
        ;
        assert(size + q - offset == rem + q);
        lemma_div_round_monotone(rem * notional, size, (rem + q) * (notional + n), size + q);
    }
}

/// The collateral of one side is not negative.
pub proof fn lemma_side_margin_nonneg(
    orders: Seq<Order>,
    side: Side,
    position_size: int,
    ft: FuturesType,
    lev: int,
)
    requires
        all_limit(orders),
        lev >= scale(),
    ensures
        0 <= side_margin(orders, side, position_size, ft, lev) <= sum_by(
            orders,
            notional_on(side, ft),
        ),
{
    assert forall|i: int| 0 <= i < orders.len() implies size_on(side)(#[trigger] orders[i])
        >= 0 by {
        lemma_terms_nonneg(orders[i], side, ft, 0);
    }
    assert forall|i: int| 0 <= i < orders.len() implies notional_on(side, ft)(
        #[trigger] orders[i],
    ) >= 0 by {
        lemma_terms_nonneg(orders[i], side, ft, 0);
    }
    lemma_sum_by_nonneg(orders, size_on(side));
    lemma_sum_by_nonneg(orders, notional_on(side, ft));
    let s = sum_by(orders, size_on(side));
    let n = sum_by(orders, notional_on(side, ft));
    lemma_remaining_notional_bounds(s, n, offset_for(side, position_size));
    let r = remaining_notional(s, n, offset_for(side, position_size));
    lemma_leveraged(r, r, lev);
}

/// The order margin is not negative.
pub proof fn lemma_order_margin_nonneg(
    orders: Seq<Order>,
    position_size: int,
    ft: FuturesType,
    lev: int,
    fee: int,
)
    requires
        all_limit(orders),
        lev >= scale(),
        fee >= 0,
    ensures
        order_margin_raw(orders, position_size, ft, lev, fee) >= 0,
{
    lemma_side_margin_nonneg(orders, Side::Buy, position_size, ft, lev);
    lemma_side_margin_nonneg(orders, Side::Sell, position_size, ft, lev);
    assert forall|i: int| 0 <= i < orders.len() implies fee_of(ft, fee)(#[trigger] orders[i])
        >= 0 by {
        lemma_terms_nonneg(orders[i], Side::Buy, ft, fee);
    }
    lemma_sum_by_nonneg(orders, fee_of(ft, fee));
}

/// The collateral of one side does not shrink when an order is added.
pub proof fn lemma_side_margin_monotone(
    orders: Seq<Order>,
    i: int,
    o: Order,
    side: Side,
    position_size: int,
    ft: FuturesType,
    lev: int,
)
    requires
        all_limit(orders),
        o.wf(),
        o.is_limit(),
        0 <= i <= orders.len(),
        lev >= scale(),
    ensures
        side_margin(orders, side, position_size, ft, lev) <= side_margin(
            orders.insert(i, o),
            side,
            position_size,
            ft,
            lev,
        ),
{
    assert forall|k: int| 0 <= k < orders.len() implies size_on(side)(#[trigger] orders[k])
        >= 0 by {
        lemma_terms_nonneg(orders[k], side, ft, 0);
    }
    assert forall|k: int| 0 <= k < orders.len() implies notional_on(side, ft)(
        #[trigger] orders[k],
    ) >= 0 by {
        lemma_terms_nonneg(orders[k], side, ft, 0);
    }
    lemma_sum_by_nonneg(orders, size_on(side));
    lemma_sum_by_nonneg(orders, notional_on(side, ft));
    lemma_sum_by_insert(orders, size_on(side), i, o);
    lemma_sum_by_insert(orders, notional_on(side, ft), i, o);
    lemma_terms_nonneg(o, side, ft, 0);
    let s = sum_by(orders, size_on(side));
    let n = sum_by(orders, notional_on(side, ft));
    let off = offset_for(side, position_size);
    lemma_remaining_notional_monotone(s, n, off, size_on(side)(o), notional_on(side, ft)(o));
    lemma_remaining_notional_bounds(s, n, off);
    let before = remaining_notional(s, n, off);
    let after = remaining_notional(s + size_on(side)(o), n + notional_on(side, ft)(o), off);
    lemma_leveraged(before, after, lev);
}

/// Adding a limit order to the resting orders, wherever it is put, never
/// lowers the order margin.
pub proof fn lemma_order_margin_monotone(
    orders: Seq<Order>,
    i: int,
    o: Order,
    position_size: int,
    ft: FuturesType,
    lev: int,
    fee: int,
)
    requires
        all_limit(orders),
        o.wf(),
        o.is_limit(),
        0 <= i <= orders.len(),
        lev >= scale(),
        fee >= 0,
    ensures
        order_margin_raw(orders, position_size, ft, lev, fee) <= order_margin_raw(
            orders.insert(i, o),
            position_size,
            ft,
            lev,
            fee,
        ),
{
    lemma_side_margin_monotone(orders, i, o, Side::Buy, position_size, ft, lev);
    lemma_side_margin_monotone(orders, i, o, Side::Sell, position_size, ft, lev);
    lemma_sum_by_insert(orders, fee_of(ft, fee), i, o);
    lemma_terms_nonneg(o, Side::Buy, ft, fee);
}

/// The order margin of no orders is zero.
pub proof fn lemma_order_margin_empty(position_size: int, ft: FuturesType, lev: int, fee: int)
    requires
        lev >= scale(),
    ensures
        order_margin_raw(Seq::<Order>::empty(), position_size, ft, lev, fee) == 0,
{
    let e = Seq::<Order>::empty();
    assert(sum_by(e, size_on(Side::Buy)) == 0);
    assert(sum_by(e, size_on(Side::Sell)) == 0);
    assert(0 * scale() == 0);
    lemma_div_round_exact(0, lev);
}

/// The need of one side, from the totals of that side.
fn side_margin_exec(size: i128, value: i128, offset: Decimal, leverage: Leverage) -> (r: Decimal)
    requires
        0 <= size <= 0x7fff_ffff_ffff_ffff,
        0 <= value <= 0x7fff_ffff_ffff_ffff,
        offset@ >= 0,
        leverage.wf(),
    ensures
        r@ == div_raw(remaining_notional(size as int, value as int, offset@), leverage@),
        0 <= r@ <= value,
{
    proof {
        lemma_remaining_notional_bounds(size as int, value as int, offset@);
        let rn = remaining_notional(size as int, value as int, offset@);
        lemma_leveraged(rn, rn, leverage@);
    }
    let off: i128 = offset.raw() as i128;
    let left: i128 = if size <= off || size <= 0 {
        0
    } else {
        let rem: i128 = size - off;
        assert(0 <= rem * value <= 0x7fff_ffff_ffff_ffff * 0x7fff_ffff_ffff_ffff)
            by (nonlinear_arith)
            requires
                0 <= rem <= 0x7fff_ffff_ffff_ffff,
                0 <= value <= 0x7fff_ffff_ffff_ffff,
        ;
        div_round_exec(rem * value, size)
    };
    Decimal::from_raw(left as i64).div(leverage.inner())
}

/// The collateral that the resting limit orders tie up, given the size of
/// the position, the contract flavour, the leverage and the maker fee.
pub fn order_margin(
    orders: &Vec<Order>,
    position_size: Decimal,
    ft: FuturesType,
    leverage: Leverage,
    fee_maker: Fee,
) -> (r: Decimal)
    requires
        all_limit(orders@),
        in_range(position_size@),
        leverage.wf(),
        fee_maker.wf(),
        order_margin_defined(orders@, ft, fee_maker@),
    ensures
        r@ == order_margin_raw(orders@, position_size@, ft, leverage@, fee_maker@),
        r@ >= 0,
{
    let ghost os = orders@;
    let ghost fb = size_on(Side::Buy);
    let ghost fs = size_on(Side::Sell);
    let ghost nb = notional_on(Side::Buy, ft);
    let ghost ns = notional_on(Side::Sell, ft);
    let ghost ff = fee_of(ft, fee_maker@);
    proof {
        assert forall|i: int| 0 <= i < os.len() implies fb(#[trigger] os[i]) >= 0 && fs(os[i])
            >= 0 && nb(os[i]) >= 0 && ns(os[i]) >= 0 && ff(os[i]) >= 0 by {
            lemma_terms_nonneg(os[i], Side::Buy, ft, fee_maker@);
            lemma_terms_nonneg(os[i], Side::Sell, ft, fee_maker@);
        }
        lemma_sum_by_nonneg(os, fb);
        lemma_sum_by_nonneg(os, fs);
        lemma_sum_by_nonneg(os, nb);
        lemma_sum_by_nonneg(os, ns);
        lemma_sum_by_nonneg(os, ff);
        lemma_order_margin_nonneg(os, position_size@, ft, leverage@, fee_maker@);
        assert(os.take(0) =~= Seq::<Order>::empty());
    }
    let mut buy_size: i64 = 0;
    let mut sell_size: i64 = 0;
    let mut buy_value: i64 = 0;
    let mut sell_value: i64 = 0;
    let mut fees: i64 = 0;
    let mut i: usize = 0;
    while i < orders.len()
        invariant
            0 <= i <= orders.len(),
            os == orders@,
            all_limit(os),
            fee_maker.wf(),
            order_margin_defined(os, ft, fee_maker@),
            fb == size_on(Side::Buy),
            fs == size_on(Side::Sell),
            nb == notional_on(Side::Buy, ft),
            ns == notional_on(Side::Sell, ft),
            ff == fee_of(ft, fee_maker@),
            forall|k: int| 0 <= k <= os.len() ==> 0 <= sum_by(#[trigger] os.take(k), fb) <= sum_by(os, fb),
            forall|k: int| 0 <= k <= os.len() ==> 0 <= sum_by(#[trigger] os.take(k), fs) <= sum_by(os, fs),
            forall|k: int| 0 <= k <= os.len() ==> 0 <= sum_by(#[trigger] os.take(k), nb) <= sum_by(os, nb),
            forall|k: int| 0 <= k <= os.len() ==> 0 <= sum_by(#[trigger] os.take(k), ns) <= sum_by(os, ns),
            forall|k: int| 0 <= k <= os.len() ==> 0 <= sum_by(#[trigger] os.take(k), ff) <= sum_by(os, ff),
            buy_size == sum_by(os.take(i as int), fb),
            sell_size == sum_by(os.take(i as int), fs),
            buy_value == sum_by(os.take(i as int), nb),
            sell_value == sum_by(os.take(i as int), ns),
            fees == sum_by(os.take(i as int), ff),
        decreases orders.len() - i,
    {
        let o = &orders[i];
        proof {
            let next = os.take(i as int + 1);
            assert(next.drop_last() =~= os.take(i as int));
            assert(next.last() == os[i as int]);
            assert(os[i as int].wf() && os[i as int].is_limit());
            assert(0 <= sum_by(next, fb) <= sum_by(os, fb));
            assert(0 <= sum_by(next, fs) <= sum_by(os, fs));
            assert(0 <= sum_by(next, nb) <= sum_by(os, nb));
            assert(0 <= sum_by(next, ns) <= sum_by(os, ns));
            assert(0 <= sum_by(next, ff) <= sum_by(os, ff));
        }
        let price = o.limit_price().unwrap();
        let value = notional(ft, o.size(), price);
        let fee = fee_amount(ft, o.size(), fee_maker, price);
        match o.side() {
            Side::Buy => {
                buy_size = buy_size + o.size().raw();
                buy_value = buy_value + value.raw();
            },
            Side::Sell => {
                sell_size = sell_size + o.size().raw();
                sell_value = sell_value + value.raw();
            },
        }
        fees = fees + fee.raw();
        i = i + 1;
    }
    proof {
        assert(os.take(os.len() as int) =~= os);
        lemma_side_margin_nonneg(os, Side::Buy, position_size@, ft, leverage@);
        lemma_side_margin_nonneg(os, Side::Sell, position_size@, ft, leverage@);
    }
    let buy_offset = if position_size.is_negative() {
        position_size.neg()
    } else {
        Decimal::zero()
    };
    let sell_offset = if position_size.is_positive() {
        position_size
    } else {
        Decimal::zero()
    };
    let buy = side_margin_exec(buy_size as i128, buy_value as i128, buy_offset, leverage);
    let sell = side_margin_exec(sell_size as i128, sell_value as i128, sell_offset, leverage);
    buy.max(sell).add(Decimal::from_raw(fees))
}


/// Whether the totals that the order margin is computed from are representable.
pub fn order_margin_representable(orders: &Vec<Order>, ft: FuturesType, fee_maker: Fee) -> (r:
    bool)
    requires
        all_limit(orders@),
        fee_maker.wf(),
    ensures
        r == order_margin_defined(orders@, ft, fee_maker@),
{
    let ghost os = orders@;
    let ghost fb = size_on(Side::Buy);
    let ghost fs = size_on(Side::Sell);
    let ghost nb = notional_on(Side::Buy, ft);
    let ghost ns = notional_on(Side::Sell, ft);
    let ghost ff = fee_of(ft, fee_maker@);
    proof {
        assert(os.take(0) =~= Seq::<Order>::empty());
    }
    let mut buy_size: i128 = 0;
    let mut sell_size: i128 = 0;
    let mut buy_value: i128 = 0;
    let mut sell_value: i128 = 0;
    let mut fees: i128 = 0;
    let mut i: usize = 0;
    while i < orders.len()
        invariant
            0 <= i <= orders.len(),
            os == orders@,
            all_limit(os),
            fee_maker.wf(),
            fb == size_on(Side::Buy),
            fs == size_on(Side::Sell),
            nb == notional_on(Side::Buy, ft),
            ns == notional_on(Side::Sell, ft),
            ff == fee_of(ft, fee_maker@),
            forall|k: int|
                0 <= k < i ==> in_range(
                    notional_raw(ft, (#[trigger] os[k]).size@, os[k].price()),
                ) && fee_defined(ft, os[k].size@, fee_maker@, os[k].price()),
            buy_size == sum_by(os.take(i as int), fb),
            sell_size == sum_by(os.take(i as int), fs),
            buy_value == sum_by(os.take(i as int), nb),
            sell_value == sum_by(os.take(i as int), ns),
            fees == sum_by(os.take(i as int), ff),
            0 <= buy_size <= i * 0x7fff_ffff_ffff_ffff,
            0 <= sell_size <= i * 0x7fff_ffff_ffff_ffff,
            0 <= buy_value <= i * 0x7fff_ffff_ffff_ffff,
            0 <= sell_value <= i * 0x7fff_ffff_ffff_ffff,
            0 <= fees <= i * 0x7fff_ffff_ffff_ffff,
        decreases orders.len() - i,
    {
        let o = &orders[i];
        proof {
            let next = os.take(i as int + 1);
            assert(next.drop_last() =~= os.take(i as int));
            assert(next.last() == os[i as int]);
            assert(os[i as int].wf() && os[i as int].is_limit());
            lemma_terms_nonneg(os[i as int], Side::Buy, ft, fee_maker@);
            lemma_terms_nonneg(os[i as int], Side::Sell, ft, fee_maker@);
        }
        let price = o.limit_price().unwrap();
        let value = match checked_notional(ft, o.size(), price) {
            Some(value) => value,
            None => {
                return false;
            },
        };
        let fee = match checked_fee_amount(ft, o.size(), fee_maker, price) {
            Some(fee) => fee,
            None => {
                return false;
            },
        };
        match o.side() {
            Side::Buy => {
                buy_size = buy_size + o.size().raw() as i128;
                buy_value = buy_value + value.raw() as i128;
            },
            Side::Sell => {
                sell_size = sell_size + o.size().raw() as i128;
                sell_value = sell_value + value.raw() as i128;
            },
        }
        fees = fees + fee.raw() as i128;
        i = i + 1;
    }
    proof {
        assert(os.take(os.len() as int) =~= os);
    }
    let limit: i128 = 0x7fff_ffff_ffff_ffff;
    buy_size <= limit && sell_size <= limit && fees <= limit && buy_value <= limit
        && sell_value <= limit && buy_value + fees <= limit && sell_value + fees <= limit
}

} // verus!
