//! An account: the margin ledger, the position and the resting limit
//! orders, and the transitions that trades, fills and cancellations cause.

use vstd::prelude::*;
use crate::active_orders::{has_id, index_of_id, insert_sorted, inserted, remove_by_id, removed,
    sorted_by_id, lemma_index_of_id, lemma_inserted_sorted, lemma_rank_bounds,
    lemma_removed_sorted};
use crate::currency::{Fee, Leverage, QuoteCurrency, checked_fee_amount, checked_margin_amount,
    checked_pnl, fee_amount, fee_defined, fee_raw,
    margin_amount, margin_defined, margin_raw, notional_raw, pnl_defined, pnl_raw,
    lemma_margin_nonneg, lemma_margin_zero};
use crate::decimal::{Decimal, in_range, scale};
use crate::margin::Margin;
use crate::order::Order;
use crate::order_margin::{all_limit, fee_of, notional_on, order_margin, order_margin_defined,
    order_margin_raw, size_on, sum_by, lemma_order_margin_monotone, lemma_order_margin_nonneg,
    lemma_side_margin_nonneg, lemma_sum_by_nonneg, lemma_sum_by_remove, lemma_terms_nonneg};
use crate::position::{Position, average_entry_raw, lemma_average_entry_bounds};
use crate::side::{FuturesType, Side};

verus! {

/// The mathematical state of an account: raw values and the list of resting orders.
pub struct AccountView {
    /// Everything the account owns.
    pub wallet_balance: int,
    /// The collateral tied to the position.
    pub position_margin: int,
    /// The collateral tied to the resting limit orders.
    pub order_margin: int,
    /// The size of the position: positive when long, negative when short.
    pub size: int,
    /// The average entry price of the position.
    pub entry_price: int,
    /// The leverage.
    pub leverage: int,
    /// The contract flavour.
    pub futures_type: FuturesType,
    /// The resting limit orders, in ascending order of identifier.
    pub orders: Seq<Order>,
    /// The fee rate for fills of resting orders.
    pub fee_maker: int,
    /// The fee rate for market orders.
    pub fee_taker: int,
}

/// `qty` with the sign of the side: positive for a buy, negative for a sell.
pub open spec fn signed(side: Side, qty: int) -> int {
    match side {
        Side::Buy => qty,
        Side::Sell => -qty,
    }
}

/// The magnitude of a number.
pub open spec fn magnitude(x: int) -> int {
    if x >= 0 {
        x
    } else {
        -x
    }
}

/// A trade on `side` makes an open position of `size` larger.
pub open spec fn enlarges(size: int, side: Side) -> bool {
    (size > 0 && side == Side::Buy) || (size < 0 && side == Side::Sell)
}

impl AccountView {
    /// The part of the wallet that is tied to nothing.
    pub open spec fn available(self) -> int {
        self.wallet_balance - self.position_margin - self.order_margin
    }

    /// The order margin that the resting orders and the position call for.
    pub open spec fn required_order_margin(self) -> int {
        order_margin_raw(self.orders, self.size, self.futures_type, self.leverage, self.fee_maker)
    }

    /// The fee rate of a fill: the maker's or the taker's.
    pub open spec fn fee_rate(self, maker: bool) -> int {
        if maker {
            self.fee_maker
        } else {
            self.fee_taker
        }
    }

    /// Everything that holds of an account but for the two facts about the
    /// order margin: rates and leverage are valid, an open position has a
    /// positive entry price, no collateral is negative, the resting orders
    /// are limit orders in ascending order of identifier, and their totals
    /// are representable.
    pub open spec fn wf_loose(self) -> bool {
        &&& self.leverage >= scale()
        &&& 0 <= self.fee_maker <= scale()
        &&& 0 <= self.fee_taker <= scale()
        &&& in_range(self.size)
        &&& self.entry_price >= 0
        &&& self.size != 0 ==> self.entry_price > 0
        &&& self.position_margin >= 0
        &&& in_range(self.wallet_balance)
        &&& all_limit(self.orders)
        &&& sorted_by_id(self.orders)
        &&& order_margin_defined(self.orders, self.futures_type, self.fee_maker)
    }

    /// The account is consistent: beyond `wf_loose`, the order margin is
    /// what the resting orders and the position call for, and the available
    /// balance is representable.
    pub open spec fn wf(self) -> bool {
        &&& self.wf_loose()
        &&& self.order_margin == self.required_order_margin()
        &&& in_range(self.available())
    }

    /// The profit that the position would realise if it were closed now:
    /// a long is valued at the bid, a short at the ask.
    pub open spec fn unrealized_pnl(self, bid: int, ask: int) -> int {
        if self.size > 0 {
            pnl_raw(self.futures_type, self.entry_price, bid, self.size)
        } else if self.size < 0 {
            pnl_raw(self.futures_type, self.entry_price, ask, self.size)
        } else {
            0
        }
    }

    /// Every step of the computation of the unrealized profit is representable.
    pub open spec fn unrealized_pnl_defined(self, bid: int, ask: int) -> bool {
        &&& self.size > 0 ==> bid > 0 && pnl_defined(
            self.futures_type,
            self.entry_price,
            bid,
            self.size,
        )
        &&& self.size < 0 ==> ask > 0 && pnl_defined(
            self.futures_type,
            self.entry_price,
            ask,
            self.size,
        )
    }

    /// The same account with the order margin computed afresh.
    pub open spec fn refreshed(self) -> AccountView {
        AccountView { order_margin: self.required_order_margin(), ..self }
    }
}

/// The profit that a trade of `qty` contracts on `side` at `price` realises:
/// nothing unless it closes contracts, else the profit of the closed contracts.
pub open spec fn realized_pnl(v: AccountView, side: Side, qty: int, price: int) -> int {
    if v.size == 0 || enlarges(v.size, side) {
        0
    } else if qty <= magnitude(v.size) {
        pnl_raw(v.futures_type, v.entry_price, price, -signed(side, qty))
    } else {
        pnl_raw(v.futures_type, v.entry_price, price, v.size)
    }
}

/// The entry price after a trade: the price itself when a position is
/// opened, from flat or after the old one was closed; the weighted average
/// when the position grows; the old entry price when it shrinks.
pub open spec fn traded_entry_price(v: AccountView, side: Side, qty: int, price: int) -> int {
    if v.size == 0 {
        price
    } else if enlarges(v.size, side) {
        average_entry_raw(v.entry_price, magnitude(v.size), price, qty)
    } else if qty <= magnitude(v.size) {
        v.entry_price
    } else {
        price
    }
}

/// The position margin after a trade: that of the new contracts when a
/// position is opened; the old one plus that of the new contracts when the
/// position grows; that of what is left, at the entry price, when it shrinks.
pub open spec fn traded_position_margin(v: AccountView, side: Side, qty: int, price: int) -> int {
    if v.size == 0 {
        margin_raw(v.futures_type, qty, price, v.leverage)
    } else if enlarges(v.size, side) {
        v.position_margin + margin_raw(v.futures_type, qty, price, v.leverage)
    } else if qty <= magnitude(v.size) {
        margin_raw(v.futures_type, magnitude(v.size) - qty, v.entry_price, v.leverage)
    } else {
        margin_raw(v.futures_type, qty - magnitude(v.size), price, v.leverage)
    }
}

/// The account after a trade of `qty` contracts on `side` at `price`: the
/// position changes, the realised profit goes to the wallet, and the order
/// margin is computed afresh. No fee is charged here.
pub open spec fn traded(v: AccountView, side: Side, qty: int, price: int) -> AccountView {
    (AccountView {
        wallet_balance: v.wallet_balance + realized_pnl(v, side, qty, price),
        position_margin: traded_position_margin(v, side, qty, price),
        size: v.size + signed(side, qty),
        entry_price: traded_entry_price(v, side, qty, price),
        ..v
    }).refreshed()
}

/// Every step of a trade is representable.
pub open spec fn trade_defined(v: AccountView, side: Side, qty: int, price: int) -> bool {
    &&& in_range(v.size + signed(side, qty))
    &&& if v.size == 0 {
        margin_defined(v.futures_type, qty, price, v.leverage)
    } else if enlarges(v.size, side) {
        margin_defined(v.futures_type, qty, price, v.leverage) && in_range(
            v.position_margin + margin_raw(v.futures_type, qty, price, v.leverage),
        )
    } else if qty <= magnitude(v.size) {
        pnl_defined(v.futures_type, v.entry_price, price, -signed(side, qty)) && margin_defined(
            v.futures_type,
            magnitude(v.size) - qty,
            v.entry_price,
            v.leverage,
        )
    } else {
        pnl_defined(v.futures_type, v.entry_price, price, v.size) && margin_defined(
            v.futures_type,
            qty - magnitude(v.size),
            price,
            v.leverage,
        )
    }
    &&& in_range(v.wallet_balance + realized_pnl(v, side, qty, price))
    &&& in_range(traded(v, side, qty, price).available())
}

/// The account after an order with the identifier `id`, for `qty`
/// contracts on `side`, was filled at `price`: the order no longer rests,
/// its fee has left the wallet, and the trade has taken place.
pub open spec fn settled(v: AccountView, id: u64, side: Side, qty: int, price: int, maker: bool)
    -> AccountView {
    traded(
        AccountView {
            orders: removed(v.orders, id),
            wallet_balance: v.wallet_balance - fee_raw(
                v.futures_type,
                qty,
                v.fee_rate(maker),
                price,
            ),
            ..v
        },
        side,
        qty,
        price,
    )
}

/// The profit that the fill of an order realises.
pub open spec fn settled_pnl(v: AccountView, id: u64, side: Side, qty: int, price: int) -> int {
    realized_pnl(AccountView { orders: removed(v.orders, id), ..v }, side, qty, price)
}

/// Every step of the settlement of a fill is representable.
pub open spec fn settle_defined(
    v: AccountView,
    id: u64,
    side: Side,
    qty: int,
    price: int,
    maker: bool,
) -> bool {
    &&& fee_defined(v.futures_type, qty, v.fee_rate(maker), price)
    &&& in_range(v.wallet_balance - fee_raw(v.futures_type, qty, v.fee_rate(maker), price))
    &&& trade_defined(
        AccountView {
            orders: removed(v.orders, id),
            wallet_balance: v.wallet_balance - fee_raw(
                v.futures_type,
                qty,
                v.fee_rate(maker),
                price,
            ),
            ..v
        },
        side,
        qty,
        price,
    )
}

/// The account after the order with the identifier `id` was cancelled.
pub open spec fn cancelled(v: AccountView, id: u64) -> AccountView {
    (AccountView { orders: removed(v.orders, id), ..v }).refreshed()
}

/// The account after the limit order `o` came to rest.
pub open spec fn appended(v: AccountView, o: Order) -> AccountView {
    (AccountView { orders: inserted(v.orders, o), ..v }).refreshed()
}

/// What a fill cost and brought.
#[derive(Clone, Copy, Debug, PartialEq, Eq)]
pub struct Settlement {
    /// The fee that left the wallet.
    pub fee: Decimal,
    /// The profit that the fill realised.
    pub realized_pnl: Decimal,
}

/// The order margin of representable orders is representable, whatever the position.
pub proof fn lemma_order_margin_in_range(
    orders: Seq<Order>,
    position_size: int,
    ft: FuturesType,
    lev: int,
    fee: int,
)
    requires
        all_limit(orders),
        order_margin_defined(orders, ft, fee),
        lev >= scale(),
        fee >= 0,
    ensures
        0 <= order_margin_raw(orders, position_size, ft, lev, fee),
        in_range(order_margin_raw(orders, position_size, ft, lev, fee)),
{
    lemma_side_margin_nonneg(orders, Side::Buy, position_size, ft, lev);
    lemma_side_margin_nonneg(orders, Side::Sell, position_size, ft, lev);
    lemma_order_margin_nonneg(orders, position_size, ft, lev, fee);
    assert forall|i: int| 0 <= i < orders.len() implies fee_of(ft, fee)(#[trigger] orders[i])
        >= 0 by {
        lemma_terms_nonneg(orders[i], Side::Buy, ft, fee);
    }
    lemma_sum_by_nonneg(orders, fee_of(ft, fee));
}

/// Taking an order out leaves limit orders whose totals are representable.
pub proof fn lemma_removed_defined(orders: Seq<Order>, id: u64, ft: FuturesType, fee: int)
    requires
        all_limit(orders),
        sorted_by_id(orders),
        order_margin_defined(orders, ft, fee),
        fee >= 0,
    ensures
        all_limit(removed(orders, id)),
        sorted_by_id(removed(orders, id)),
        order_margin_defined(removed(orders, id), ft, fee),
{
    lemma_removed_sorted(orders, id);
    lemma_index_of_id(orders, id);
    let rest = removed(orders, id);
    let i = index_of_id(orders, id);
    assert forall|k: int| 0 <= k < rest.len() implies (#[trigger] rest[k]).wf()
        && rest[k].is_limit() && in_range(notional_raw(ft, rest[k].size@, rest[k].price()))
        && fee_defined(ft, rest[k].size@, fee, rest[k].price()) by {
        let m = crate::active_orders::index_before(orders, id, k);
        crate::active_orders::lemma_removed_index(orders, id, k);
        assert(orders[m].wf());
    }
    if i >= 0 {
        let o = orders[i];
        assert forall|k: int| 0 <= k < orders.len() implies size_on(Side::Buy)(
            #[trigger] orders[k],
        ) >= 0 && size_on(Side::Sell)(orders[k]) >= 0 && notional_on(Side::Buy, ft)(orders[k])
            >= 0 && notional_on(Side::Sell, ft)(orders[k]) >= 0 && fee_of(ft, fee)(orders[k])
            >= 0 by {
            lemma_terms_nonneg(orders[k], Side::Buy, ft, fee);
            lemma_terms_nonneg(orders[k], Side::Sell, ft, fee);
        }
        assert forall|k: int| 0 <= k < rest.len() implies size_on(Side::Buy)(#[trigger] rest[k])
            >= 0 && size_on(Side::Sell)(rest[k]) >= 0 && notional_on(Side::Buy, ft)(rest[k])
            >= 0 && notional_on(Side::Sell, ft)(rest[k]) >= 0 && fee_of(ft, fee)(rest[k])
            >= 0 by {
            lemma_terms_nonneg(rest[k], Side::Buy, ft, fee);
            lemma_terms_nonneg(rest[k], Side::Sell, ft, fee);
        }
        lemma_sum_by_remove(orders, size_on(Side::Buy), i);
        lemma_sum_by_remove(orders, size_on(Side::Sell), i);
        lemma_sum_by_remove(orders, notional_on(Side::Buy, ft), i);
        lemma_sum_by_remove(orders, notional_on(Side::Sell, ft), i);
        lemma_sum_by_remove(orders, fee_of(ft, fee), i);
        lemma_sum_by_nonneg(rest, size_on(Side::Buy));
        lemma_sum_by_nonneg(rest, size_on(Side::Sell));
        lemma_sum_by_nonneg(rest, notional_on(Side::Buy, ft));
        lemma_sum_by_nonneg(rest, notional_on(Side::Sell, ft));
        lemma_sum_by_nonneg(rest, fee_of(ft, fee));
    }
}

/// Taking an order out never raises the order margin.
pub proof fn lemma_removed_order_margin(
    orders: Seq<Order>,
    id: u64,
    position_size: int,
    ft: FuturesType,
    lev: int,
    fee: int,
)
    requires
        all_limit(orders),
        sorted_by_id(orders),
        lev >= scale(),
        fee >= 0,
    ensures
        order_margin_raw(removed(orders, id), position_size, ft, lev, fee) <= order_margin_raw(
            orders,
            position_size,
            ft,
            lev,
            fee,
        ),
{
    lemma_index_of_id(orders, id);
    let i = index_of_id(orders, id);
    if i >= 0 {
        let rest = orders.remove(i);
        assert(rest.insert(i, orders[i]) =~= orders);
        assert forall|k: int| 0 <= k < rest.len() implies (#[trigger] rest[k]).wf()
            && rest[k].is_limit() by {
            let k0 = if k < i {
                k
            } else {
                k + 1
            };
            assert(rest[k] == orders[k0]);
        }
        lemma_order_margin_monotone(rest, i, orders[i], position_size, ft, lev, fee);
    }
}

/// An account.
#[derive(Debug)]
pub struct Account {
    /// The margin ledger.
    pub margin: Margin,
    /// The position.
    pub position: Position,
    /// The resting limit orders, in ascending order of identifier.
    pub active_limit_orders: Vec<Order>,
    /// The fee rate for fills of resting orders.
    pub fee_maker: Fee,
    /// The fee rate for market orders.
    pub fee_taker: Fee,
}

impl View for Account {
    type V = AccountView;

    open spec fn view(&self) -> AccountView {
        AccountView {
            wallet_balance: self.margin.wallet_balance@,
            position_margin: self.position.position_margin@,
            order_margin: self.margin.order_margin@,
            size: self.position.size@,
            entry_price: self.position.entry_price@,
            leverage: self.position.leverage@,
            futures_type: self.position.futures_type,
            orders: self.active_limit_orders@,
            fee_maker: self.fee_maker@,
            fee_taker: self.fee_taker@,
        }
    }
}

impl Account {
    /// Ledger and position agree on the position margin.
    pub open spec fn mirrored(&self) -> bool {
        self.margin.position_margin == self.position.position_margin
    }

    /// The account is consistent.
    pub open spec fn wf(&self) -> bool {
        self@.wf() && self.mirrored()
    }

    /// A flat account without resting orders that owns `starting_balance`.
    pub fn new(
        leverage: Leverage,
        starting_balance: Decimal,
        futures_type: FuturesType,
        fee_maker: Fee,
        fee_taker: Fee,
    ) -> (r: Account)
        requires
            leverage.wf(),
            fee_maker.wf(),
            fee_taker.wf(),
            in_range(starting_balance@),
        ensures
            r.wf(),
            r@.wallet_balance == starting_balance@,
            r@.position_margin == 0,
            r@.order_margin == 0,
            r@.size == 0,
            r@.entry_price == 0,
            r@.leverage == leverage@,
            r@.futures_type == futures_type,
            r@.orders == Seq::<Order>::empty(),
            r@.fee_maker == fee_maker@,
            r@.fee_taker == fee_taker@,
    {
        let r = Account {
            margin: Margin::new(starting_balance),
            position: Position::new(leverage, futures_type),
            active_limit_orders: Vec::new(),
            fee_maker,
            fee_taker,
        };
        proof {
            assert(r@.orders =~= Seq::<Order>::empty());
            crate::order_margin::lemma_order_margin_empty(
                0,
                futures_type,
                leverage@,
                fee_maker@,
            );
            assert(sum_by(r@.orders, size_on(Side::Buy)) == 0);
            assert(sum_by(r@.orders, size_on(Side::Sell)) == 0);
            assert(sum_by(r@.orders, notional_on(Side::Buy, futures_type)) == 0);
            assert(sum_by(r@.orders, notional_on(Side::Sell, futures_type)) == 0);
            assert(sum_by(r@.orders, fee_of(futures_type, fee_maker@)) == 0);
        }
        r
    }

    /// The margin ledger.
    pub fn margin(&self) -> (r: &Margin)
        ensures
            *r == self.margin,
    {
        &self.margin
    }

    /// The position.
    pub fn position(&self) -> (r: &Position)
        ensures
            *r == self.position,
    {
        &self.position
    }

    /// The resting limit orders, in ascending order of identifier.
    pub fn active_limit_orders(&self) -> (r: &Vec<Order>)
        ensures
            r@ == self.active_limit_orders@,
    {
        &self.active_limit_orders
    }

    /// The part of the wallet that is tied to nothing.
    pub fn available_balance(&self) -> (r: Decimal)
        requires
            self.wf(),
        ensures
            r@ == self@.available(),
            r@ + self@.position_margin + self@.order_margin == self@.wallet_balance,
    {
        self.margin.available_balance()
    }

    /// The profit that the position would realise if it were closed now:
    /// a long is valued at the bid, a short at the ask.
    pub fn unrealized_pnl(&self, bid: QuoteCurrency, ask: QuoteCurrency) -> (r: Decimal)
        requires
            self.wf(),
            self@.unrealized_pnl_defined(bid@, ask@),
        ensures
            r@ == self@.unrealized_pnl(bid@, ask@),
    {
        self.position.unrealized_pnl(bid, ask)
    }

    /// The total size of the resting orders on `side`.
    pub fn open_limit_size(&self, side: Side) -> (r: Decimal)
        requires
            self.wf(),
        ensures
            r@ == sum_by(self@.orders, size_on(side)),
            r@ >= 0,
    {
        let ghost os = self.active_limit_orders@;
        let ghost f = size_on(side);
        proof {
            assert forall|i: int| 0 <= i < os.len() implies f(#[trigger] os[i]) >= 0 by {
                lemma_terms_nonneg(os[i], side, self@.futures_type, 0);
            }
            lemma_sum_by_nonneg(os, f);
            assert(os.take(0) =~= Seq::<Order>::empty());
        }
        let mut total: i64 = 0;
        let mut i: usize = 0;
        while i < self.active_limit_orders.len()
            invariant
                0 <= i <= self.active_limit_orders.len(),
                os == self.active_limit_orders@,
                f == size_on(side),
                in_range(sum_by(os, f)),
                forall|k: int|
                    0 <= k <= os.len() ==> 0 <= sum_by(#[trigger] os.take(k), f) <= sum_by(os, f),
                total == sum_by(os.take(i as int), f),
            decreases self.active_limit_orders.len() - i,
        {
            let o = &self.active_limit_orders[i];
            proof {
                let next = os.take(i as int + 1);
                assert(next.drop_last() =~= os.take(i as int));
                assert(next.last() == os[i as int]);
                assert(0 <= sum_by(next, f) <= sum_by(os, f));
            }
            if sides_equal(o.side(), side) {
                total = total + o.size().raw();
            }
            i = i + 1;
        }
        proof {
            assert(os.take(os.len() as int) =~= os);
        }
        Decimal::from_raw(total)
    }

    /// The total size of the resting buy orders.
    pub fn open_limit_buy_size(&self) -> (r: Decimal)
        requires
            self.wf(),
        ensures
            r@ == sum_by(self@.orders, size_on(Side::Buy)),
            r@ >= 0,
    {
        self.open_limit_size(Side::Buy)
    }

    /// The total size of the resting sell orders.
    pub fn open_limit_sell_size(&self) -> (r: Decimal)
        requires
            self.wf(),
        ensures
            r@ == sum_by(self@.orders, size_on(Side::Sell)),
            r@ >= 0,
    {
        self.open_limit_size(Side::Sell)
    }

    /// Lets the limit order `o` rest and ties `margin_delta` more of the
    /// wallet to the resting orders. The identifier of `o` is new, and
    /// `margin_delta` is what the order margin has to grow by.
    pub fn append_limit_order(&mut self, o: Order, margin_delta: Decimal)
        requires
            old(self).wf(),
            o.wf(),
            o.is_limit(),
            !has_id(old(self)@.orders, o.id),
            order_margin_defined(
                inserted(old(self)@.orders, o),
                old(self)@.futures_type,
                old(self)@.fee_maker,
            ),
            margin_delta@ == appended(old(self)@, o).order_margin - old(self)@.order_margin,
            in_range(old(self)@.available() - margin_delta@),
        ensures
            final(self).wf(),
            final(self)@ == appended(old(self)@, o),
            final(self)@.order_margin == old(self)@.order_margin + margin_delta@,
            final(self)@.order_margin >= old(self)@.order_margin,
    {
        proof {
            lemma_inserted_sorted(self@.orders, o);
            lemma_rank_bounds(self@.orders, o.id);
            let r = crate::active_orders::rank(self@.orders, o.id);
            let ins = inserted(self@.orders, o);
            assert forall|k: int| 0 <= k < ins.len() implies (#[trigger] ins[k]).wf()
                && ins[k].is_limit() by {
                if k < r {
                    assert(ins[k] == self@.orders[k]);
                } else if k > r {
                    assert(ins[k] == self@.orders[k - 1]);
                }
            }
            lemma_order_margin_monotone(
                self@.orders,
                r,
                o,
                self@.size,
                self@.futures_type,
                self@.leverage,
                self@.fee_maker,
            );
            lemma_order_margin_in_range(
                ins,
                self@.size,
                self@.futures_type,
                self@.leverage,
                self@.fee_maker,
            );
        }
        insert_sorted(&mut self.active_limit_orders, o);
        self.margin.order_margin = self.margin.order_margin.add(margin_delta);
    }

    /// Takes the resting order with the identifier `id` away, computes the
    /// order margin afresh from what is left, and returns the order. Without
    /// such an order nothing changes and `None` is returned.
    pub fn cancel_order(&mut self, id: u64) -> (r: Option<Order>)
        requires
            old(self).wf(),
        ensures
            final(self).wf(),
            final(self)@ == cancelled(old(self)@, id),
            final(self)@.order_margin <= old(self)@.order_margin,
            r.is_some() <==> has_id(old(self)@.orders, id),
            r.is_some() ==> r.unwrap() == old(self)@.orders[index_of_id(old(self)@.orders, id)],
    {
        proof {
            lemma_removed_defined(self@.orders, id, self@.futures_type, self@.fee_maker);
            lemma_removed_order_margin(
                self@.orders,
                id,
                self@.size,
                self@.futures_type,
                self@.leverage,
                self@.fee_maker,
            );
            lemma_order_margin_in_range(
                removed(self@.orders, id),
                self@.size,
                self@.futures_type,
                self@.leverage,
                self@.fee_maker,
            );
        }
        let r = remove_by_id(&mut self.active_limit_orders, id);
        self.refresh_order_margin();
        r
    }

    /// Computes the order margin afresh.
    fn refresh_order_margin(&mut self)
        requires
            old(self)@.wf_loose(),
        ensures
            final(self)@ == old(self)@.refreshed(),
            final(self).margin.wallet_balance == old(self).margin.wallet_balance,
            final(self).margin.position_margin == old(self).margin.position_margin,
            final(self).position == old(self).position,
            final(self)@.order_margin >= 0,
    {
        self.margin.order_margin = order_margin(
            &self.active_limit_orders,
            self.position.size,
            self.position.futures_type,
            self.position.leverage,
            self.fee_maker,
        );
    }

    /// Changes the position by `size` contracts on `side` at `price`, moves
    /// the realised profit to the wallet and computes the order margin afresh.
    fn apply_trade(&mut self, side: Side, size: Decimal, price: QuoteCurrency) -> (r: Decimal)
        requires
            old(self)@.wf_loose(),
            size@ > 0,
            price@ > 0,
            trade_defined(old(self)@, side, size@, price@),
        ensures
            final(self).wf(),
            final(self)@ == traded(old(self)@, side, size@, price@),
            r@ == realized_pnl(old(self)@, side, size@, price@),
    {
        let ghost v = self@;
        let z = self.position.size();
        let ft = self.position.futures_type();
        let lev = self.position.leverage();
        let mut rpnl = Decimal::zero();
        proof {
            lemma_margin_nonneg(ft, size@, price@, lev@);
            lemma_margin_zero(ft, self.position.entry_price@ + 1, lev@);
            if v.size != 0 {
                lemma_margin_zero(ft, v.entry_price, lev@);
                lemma_average_entry_bounds(v.entry_price, magnitude(v.size), price@, size@);
            }
        }
        if z.is_zero() {
            let m = margin_amount(ft, size, price, lev);
            let signed_size = match side {
                Side::Buy => size,
                Side::Sell => size.neg(),
            };
            let _ = self.position.open_position(signed_size, price, m);
        } else if z.is_positive() && sides_equal(side, Side::Buy) {
            let m = margin_amount(ft, size, price, lev);
            self.position.increase_long(size, price, m);
        } else if z.is_negative() && sides_equal(side, Side::Sell) {
            let m = margin_amount(ft, size, price, lev);
            self.position.increase_short(size, price, m);
        } else {
            let a = z.abs();
            if size.le(a) {
                proof {
                    lemma_margin_nonneg(ft, a@ - size@, v.entry_price, lev@);
                }
                rpnl =
                match side {
                    Side::Sell => self.position.decrease_long(size, price),
                    Side::Buy => self.position.decrease_short(size, price).unwrap(),
                };
            } else {
                rpnl =
                match side {
                    Side::Sell => self.position.decrease_long(a, price),
                    Side::Buy => self.position.decrease_short(a, price).unwrap(),
                };
                let rest = size.sub(a);
                proof {
                    lemma_margin_nonneg(ft, rest@, price@, lev@);
                }
                let m = margin_amount(ft, rest, price, lev);
                let signed_rest = match side {
                    Side::Buy => rest,
                    Side::Sell => rest.neg(),
                };
                let _ = self.position.open_position(signed_rest, price, m);
            }
        }
        self.margin.wallet_balance = self.margin.wallet_balance.add(rpnl);
        self.margin.position_margin = self.position.position_margin;
        self.refresh_order_margin();
        rpnl
    }

    /// Changes the position by `size` contracts on `side` at `price`
    /// without charging a fee: it opens, enlarges, reduces or turns the
    /// position, with the collateral of the new contracts at `price`, moves
    /// the realised profit to the wallet, computes the order margin afresh
    /// and returns the realised profit.
    pub fn change_position(&mut self, side: Side, size: Decimal, price: QuoteCurrency) -> (r:
        Decimal)
        requires
            old(self).wf(),
            size@ > 0,
            price@ > 0,
            trade_defined(old(self)@, side, size@, price@),
        ensures
            final(self).wf(),
            final(self)@ == traded(old(self)@, side, size@, price@),
            r@ == realized_pnl(old(self)@, side, size@, price@),
    {
        self.apply_trade(side, size, price)
    }

    /// Settles the fill of the order `o` at `fill_price`: the maker or the
    /// taker fee leaves the wallet, the order no longer rests, the position
    /// changes, the realised profit goes to the wallet, and the order margin
    /// is computed afresh. Returns the fee and the realised profit.
    pub fn settle_filled_order(&mut self, o: Order, fill_price: QuoteCurrency, maker: bool) -> (r:
        Settlement)
        requires
            old(self).wf(),
            o.size@ > 0,
            fill_price@ > 0,
            settle_defined(old(self)@, o.id, o.side, o.size@, fill_price@, maker),
        ensures
            final(self).wf(),
            final(self)@ == settled(old(self)@, o.id, o.side, o.size@, fill_price@, maker),
            r.fee@ == fee_raw(
                old(self)@.futures_type,
                o.size@,
                old(self)@.fee_rate(maker),
                fill_price@,
            ),
            r.realized_pnl@ == settled_pnl(old(self)@, o.id, o.side, o.size@, fill_price@),
    {
        proof {
            lemma_removed_defined(self@.orders, o.id, self@.futures_type, self@.fee_maker);
        }
        let rate = if maker {
            self.fee_maker
        } else {
            self.fee_taker
        };
        let fee = fee_amount(self.position.futures_type(), o.size(), rate, fill_price);
        let _ = remove_by_id(&mut self.active_limit_orders, o.id());
        self.margin.wallet_balance = self.margin.wallet_balance.sub(fee);
        let realized = self.apply_trade(o.side(), o.size(), fill_price);
        Settlement { fee, realized_pnl: realized }
    }
}

/// Whether two sides are the same.
pub fn sides_equal(a: Side, b: Side) -> (r: bool)
    ensures
        r == (a == b),
{
    match (a, b) {
        (Side::Buy, Side::Buy) => true,
        (Side::Sell, Side::Sell) => true,
        _ => false,
    }
}


impl Account {
    /// A copy of the account.
    pub fn copy(&self) -> (r: Account)
        ensures
            r@ == self@,
            r.margin == self.margin,
            r.position == self.position,
            r.active_limit_orders@ == self.active_limit_orders@,
            r.fee_maker == self.fee_maker,
            r.fee_taker == self.fee_taker,
    {
        Account {
            margin: self.margin,
            position: self.position,
            active_limit_orders: crate::active_orders::copy_orders(&self.active_limit_orders),
            fee_maker: self.fee_maker,
            fee_taker: self.fee_taker,
        }
    }

    /// Whether every step of a trade of `size` contracts on `side` at
    /// `price` is representable.
    fn trade_representable(&self, side: Side, size: Decimal, price: QuoteCurrency) -> (r: bool)
        requires
            self@.wf_loose(),
            size@ > 0,
            price@ > 0,
        ensures
            r == trade_defined(self@, side, size@, price@),
    {
        let ghost v = self@;
        let z = self.position.size();
        let ft = self.position.futures_type();
        let lev = self.position.leverage();
        let entry = self.position.entry_price();
        let limit: i128 = 0x7fff_ffff_ffff_ffff;
        let wide_size: i128 = match side {
            Side::Buy => z.raw() as i128 + size.raw() as i128,
            Side::Sell => z.raw() as i128 - size.raw() as i128,
        };
        if wide_size < -limit || wide_size > limit {
            return false;
        }
        let new_size = Decimal::from_raw(wide_size as i64);
        let mut rpnl = Decimal::zero();
        let new_margin: Decimal;
        if z.is_zero() {
            match checked_margin_amount(ft, size, price, lev) {
                Some(m) => {
                    new_margin = m;
                },
                None => {
                    return false;
                },
            }
        } else if (z.is_positive() && sides_equal(side, Side::Buy)) || (z.is_negative()
            && sides_equal(side, Side::Sell)) {
            match checked_margin_amount(ft, size, price, lev) {
                Some(m) => match self.position.position_margin().checked_add(m) {
                    Some(total) => {
                        new_margin = total;
                    },
                    None => {
                        return false;
                    },
                },
                None => {
                    return false;
                },
            }
        } else {
            let a = z.abs();
            if size.le(a) {
                let closed = match side {
                    Side::Sell => size,
                    Side::Buy => size.neg(),
                };
                match checked_pnl(ft, entry, price, closed) {
                    Some(p) => {
                        rpnl = p;
                    },
                    None => {
                        return false;
                    },
                }
                match checked_margin_amount(ft, a.sub(size), entry, lev) {
                    Some(m) => {
                        new_margin = m;
                    },
                    None => {
                        return false;
                    },
                }
            } else {
                match checked_pnl(ft, entry, price, z) {
                    Some(p) => {
                        rpnl = p;
                    },
                    None => {
                        return false;
                    },
                }
                match checked_margin_amount(ft, size.sub(a), price, lev) {
                    Some(m) => {
                        new_margin = m;
                    },
                    None => {
                        return false;
                    },
                }
            }
        }
        let new_wallet = match self.margin.wallet_balance().checked_add(rpnl) {
            Some(w) => w,
            None => {
                return false;
            },
        };
        proof {
            lemma_order_margin_in_range(
                v.orders,
                new_size@,
                v.futures_type,
                v.leverage,
                v.fee_maker,
            );
        }
        let needed = order_margin(&self.active_limit_orders, new_size, ft, lev, self.fee_maker);
        let available: i128 = new_wallet.raw() as i128 - new_margin.raw() as i128
            - needed.raw() as i128;
        -limit <= available && available <= limit
    }

    /// Whether every step of a change of the position by `size` contracts
    /// on `side` at `price` is representable.
    pub fn change_position_representable(
        &self,
        side: Side,
        size: Decimal,
        price: QuoteCurrency,
    ) -> (r: bool)
        requires
            self.wf(),
            size@ > 0,
            price@ > 0,
        ensures
            r == trade_defined(self@, side, size@, price@),
    {
        self.trade_representable(side, size, price)
    }

    /// Whether every step of the settlement of a fill of the order `o` at
    /// `fill_price` is representable.
    pub fn settle_representable(&self, o: &Order, fill_price: QuoteCurrency, maker: bool) -> (r:
        bool)
        requires
            self.wf(),
            o.size@ > 0,
            fill_price@ > 0,
        ensures
            r == settle_defined(self@, o.id, o.side, o.size@, fill_price@, maker),
    {
        let rate = if maker {
            self.fee_maker
        } else {
            self.fee_taker
        };
        let fee = match checked_fee_amount(
            self.position.futures_type(),
            o.size(),
            rate,
            fill_price,
        ) {
            Some(fee) => fee,
            None => {
                return false;
            },
        };
        let wallet = match self.margin.wallet_balance().checked_sub(fee) {
            Some(w) => w,
            None => {
                return false;
            },
        };
        proof {
            lemma_removed_defined(self@.orders, o.id, self@.futures_type, self@.fee_maker);
        }
        let mut scratch = self.copy();
        let _ = remove_by_id(&mut scratch.active_limit_orders, o.id());
        scratch.margin.wallet_balance = wallet;
        scratch.trade_representable(o.side(), o.size(), fill_price)
    }
}

} // verus!
