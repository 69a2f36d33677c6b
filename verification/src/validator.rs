//! Admission control: whether the account can afford an order.

use vstd::prelude::*;
use crate::account::{Account, AccountView, appended, lemma_order_margin_in_range};
use crate::active_orders::{copy_orders, has_id, insert_sorted, inserted, rank, remove_by_id,
    removed, sorted_by_id, with_order, lemma_rank_bounds, lemma_removed_sorted};
use crate::currency::{Fee, QuoteCurrency, fee_raw, notional_raw, lemma_fee_share,
    lemma_leveraged};
use crate::decimal::{Decimal, div_raw, div_round_exec, scale, SCALE, lemma_div_round_bounds, lemma_div_round_nonneg};
use crate::errors::OrderError;
use crate::order::Order;
use crate::order_margin::{all_limit, order_margin, order_margin_defined,
    order_margin_representable, order_margin_raw,
    size_on, sum_by};
use crate::side::{FuturesType, Side};

verus! {

/// Checks orders against the state of an account and the best prices.
#[derive(Clone, Copy, Debug)]
pub struct Validator {
    /// The fee rate for fills of resting orders.
    pub fee_maker: Fee,
    /// The fee rate for market orders.
    pub fee_taker: Fee,
    /// The best bid.
    pub bid: QuoteCurrency,
    /// The best ask.
    pub ask: QuoteCurrency,
    /// The contract flavour.
    pub futures_type: FuturesType,
}

/// The other side.
pub open spec fn opposite(side: Side) -> Side {
    match side {
        Side::Buy => Side::Sell,
        Side::Sell => Side::Buy,
    }
}

/// The smaller of two numbers.
pub open spec fn min_int(a: int, b: int) -> int {
    if a <= b {
        a
    } else {
        b
    }
}

/// How a market order of `size` contracts on `side` splits into contracts
/// that give collateral back and contracts that need new collateral. With
/// a flat position the first part is what resting orders of the other side
/// would offset, and the whole order needs collateral. An order that
/// enlarges the position gives nothing back. An order against the position
/// gives back what it closes and needs collateral for the excess.
pub open spec fn market_order_split(v: AccountView, side: Side, size: int) -> (int, int) {
    if v.size == 0 {
        (min_int(size, sum_by(v.orders, size_on(opposite(side)))), size)
    } else if (v.size > 0 && side == Side::Buy) || (v.size < 0 && side == Side::Sell) {
        (0, size)
    } else {
        let open = if v.size > 0 {
            v.size
        } else {
            -v.size
        };
        (
            min_int(size, open),
            if size > open {
                size - open
            } else {
                0
            },
        )
    }
}

impl Validator {
    /// The fee rates are valid.
    pub open spec fn wf(self) -> bool {
        &&& self.fee_maker.wf()
        &&& self.fee_taker.wf()
    }

    /// The price at which a market order on `side` trades: the ask for a
    /// buy, the bid for a sell.
    pub open spec fn price_for(self, side: Side) -> int {
        match side {
            Side::Buy => self.ask@,
            Side::Sell => self.bid@,
        }
    }

    /// Raw value of the collateral that a market order gives back: the
    /// contracts that give back, divided by the leverage, valued at the price.
    pub open spec fn market_order_debit(self, v: AccountView, side: Side, size: int) -> int {
        notional_raw(
            self.futures_type,
            div_raw(market_order_split(v, side, size).0, v.leverage),
            self.price_for(side),
        )
    }

    /// Raw value of what a market order needs: the contracts that need
    /// collateral, divided by the leverage, valued at the price, plus the
    /// taker fee on the whole order.
    pub open spec fn market_order_credit(self, v: AccountView, side: Side, size: int) -> int {
        notional_raw(
            self.futures_type,
            div_raw(market_order_split(v, side, size).1, v.leverage),
            self.price_for(side),
        ) + fee_raw(self.futures_type, size, self.fee_taker@, self.price_for(side))
    }

    /// Raw value by which the order margin has to grow for the limit order
    /// `o` to rest: the order margin of the resting orders together with
    /// `o`, less the order margin that the account holds.
    pub open spec fn limit_order_delta(self, v: AccountView, o: Order) -> int {
        order_margin_raw(
            with_order(v.orders, o),
            v.size,
            self.futures_type,
            v.leverage,
            self.fee_maker@,
        ) - v.order_margin
    }

    /// The validator goes by the contract flavour and the maker fee of the account.
    pub open spec fn follows(self, v: AccountView) -> bool {
        self.futures_type == v.futures_type && self.fee_maker@ == v.fee_maker
    }

    /// The verdict on a limit order: its price must not cross the book,
    /// and the account must have what the order margin grows by.
    pub open spec fn limit_order_verdict(self, v: AccountView, o: Order) -> Result<
        int,
        OrderError,
    > {
        if (o.side == Side::Buy && o.price() > self.ask@) || (o.side == Side::Sell && o.price()
            < self.bid@) {
            Err(OrderError::InvalidLimitPrice)
        } else if self.limit_order_delta(v, o) > v.available() {
            Err(OrderError::NotEnoughAvailableBalance)
        } else {
            Ok(self.limit_order_delta(v, o))
        }
    }

    /// A validator that knows no prices yet.
    pub fn new(fee_maker: Fee, fee_taker: Fee, futures_type: FuturesType) -> (r: Validator)
        ensures
            r.fee_maker == fee_maker,
            r.fee_taker == fee_taker,
            r.futures_type == futures_type,
            r.bid@ == 0,
            r.ask@ == 0,
            fee_maker.wf() && fee_taker.wf() ==> r.wf(),
    {
        Validator {
            fee_maker,
            fee_taker,
            bid: QuoteCurrency::new_zero(),
            ask: QuoteCurrency::new_zero(),
            futures_type,
        }
    }

    /// Takes note of the best bid and ask; the bid is not above the ask.
    pub fn update(&mut self, bid: QuoteCurrency, ask: QuoteCurrency)
        requires
            bid@ <= ask@,
        ensures
            *final(self) == (Validator { bid, ask, ..*old(self) }),
            old(self).wf() ==> final(self).wf(),
    {
        self.bid = bid;
        self.ask = ask;
    }

    /// Whether the account can afford the market order `o`: it cannot if
    /// the order needs more than the available balance and what the order
    /// gives back.
    pub fn validate_market_order(&self, o: &Order, acc: &Account) -> (r: Result<(), OrderError>)
        requires
            self.wf(),
            acc.wf(),
            o.size@ > 0,
            self.price_for(o.side) > 0,
        ensures
            self.market_order_credit(acc@, o.side, o.size@) > acc@.available()
                + self.market_order_debit(acc@, o.side, o.size@) ==> r == Err::<(), OrderError>(
                OrderError::NotEnoughAvailableBalance,
            ),
            self.market_order_credit(acc@, o.side, o.size@) <= acc@.available()
                + self.market_order_debit(acc@, o.side, o.size@) ==> r == Ok::<(), OrderError>(
                (),
            ),
            r.is_ok() ==> self.market_order_credit(acc@, o.side, o.size@)
                - self.market_order_debit(acc@, o.side, o.size@) <= acc@.available(),
    {
        let (debit, credit) = self.order_cost_market(o, acc);
        let available: i128 = acc.available_balance().raw() as i128;
        if credit > available + debit {
            return Err(OrderError::NotEnoughAvailableBalance);
        }
        Ok(())
    }

    /// Whether the limit order `o` may rest, and if so, by how much the
    /// order margin has to grow.
    pub fn validate_limit_order(&self, o: &Order, acc: &Account) -> (r: Result<
        Decimal,
        OrderError,
    >)
        requires
            self.wf(),
            acc.wf(),
            o.wf(),
            o.is_limit(),
            order_margin_defined(with_order(acc@.orders, *o), self.futures_type, self.fee_maker@),
        ensures
            match self.limit_order_verdict(acc@, *o) {
                Ok(delta) => r.is_ok() && r.unwrap()@ == delta,
                Err(e) => r == Err::<Decimal, OrderError>(e),
            },
            r.is_ok() ==> acc@.available() - r.unwrap()@ >= 0,
            r.is_ok() ==> acc@.order_margin + r.unwrap()@ >= 0,
            r.is_ok() && !has_id(acc@.orders, o.id) && self.follows(acc@) ==> r.unwrap()@ >= 0
                && acc@.order_margin + r.unwrap()@ == appended(acc@, *o).order_margin,
    {
        let price = o.limit_price().unwrap().inner();
        match o.side() {
            Side::Buy => {
                if price.gt(self.ask.inner()) {
                    return Err(OrderError::InvalidLimitPrice);
                }
            },
            Side::Sell => {
                if price.lt(self.bid.inner()) {
                    return Err(OrderError::InvalidLimitPrice);
                }
            },
        }
        let delta = self.limit_order_margin_cost(o, acc);
        if delta.gt(acc.available_balance()) {
            return Err(OrderError::NotEnoughAvailableBalance);
        }
        Ok(delta)
    }

    /// What the market order `o` gives back and what it needs, as raw
    /// amounts of the collateral currency.
    pub fn order_cost_market(&self, o: &Order, acc: &Account) -> (r: (i128, i128))
        requires
            self.wf(),
            acc.wf(),
            o.size@ > 0,
            self.price_for(o.side) > 0,
        ensures
            r.0 == self.market_order_debit(acc@, o.side, o.size@),
            r.1 == self.market_order_credit(acc@, o.side, o.size@),
            0 <= r.0 <= 0x10_0000_0000_0000_0000_0000_0000,
            0 <= r.1 <= 0x20_0000_0000_0000_0000_0000_0000,
    {
        let size = o.size();
        let pos_size = acc.position().size();
        let zero = Decimal::zero();
        let (debit, credit) = if pos_size.is_zero() {
            match o.side() {
                Side::Buy => (size.min(acc.open_limit_sell_size()), size),
                Side::Sell => (size.min(acc.open_limit_buy_size()), size),
            }
        } else if pos_size.is_positive() {
            match o.side() {
                Side::Buy => (zero, size),
                Side::Sell => (
                    size.min(pos_size),
                    if size.gt(pos_size) {
                        size.sub(pos_size)
                    } else {
                        zero
                    },
                ),
            }
        } else {
            let open = pos_size.abs();
            match o.side() {
                Side::Buy => (
                    size.min(open),
                    if size.gt(open) {
                        size.sub(open)
                    } else {
                        zero
                    },
                ),
                Side::Sell => (zero, size),
            }
        };
        assert(debit@ == market_order_split(acc@, o.side, o.size@).0);
        assert(credit@ == market_order_split(acc@, o.side, o.size@).1);
        let leverage = acc.position().leverage().inner();
        proof {
            lemma_leveraged(debit@, debit@, leverage@);
            lemma_leveraged(credit@, credit@, leverage@);
            lemma_fee_share(size@, self.fee_taker@);
        }
        let debit = debit.div(leverage);
        let credit = credit.div(leverage);
        let fee = size.mul(self.fee_taker.inner());
        let price = match o.side() {
            Side::Buy => self.ask,
            Side::Sell => self.bid,
        };
        let debit_value = notional_wide(self.futures_type, debit, price);
        let credit_value = notional_wide(self.futures_type, credit, price);
        let fee_value = notional_wide(self.futures_type, fee, price);
        (debit_value, credit_value + fee_value)
    }

    /// By how much the order margin has to grow for the limit order `o` to
    /// rest: the order margin of the resting orders together with `o`,
    /// which takes the place of a resting order with the same identifier,
    /// less the order margin that the account holds.
    pub fn limit_order_margin_cost(&self, o: &Order, acc: &Account) -> (r: Decimal)
        requires
            self.wf(),
            acc.wf(),
            o.wf(),
            o.is_limit(),
            order_margin_defined(with_order(acc@.orders, *o), self.futures_type, self.fee_maker@),
        ensures
            r@ == self.limit_order_delta(acc@, *o),
            acc@.order_margin + r@ >= 0,
            !has_id(acc@.orders, o.id) && self.follows(acc@) ==> r@ >= 0 && acc@.order_margin + r@
                == appended(acc@, *o).order_margin,
    {
        let mut orders = copy_orders(acc.active_limit_orders());
        proof {
            lemma_with_order_valid(acc@.orders, *o);
            lemma_removed_sorted(acc@.orders, o.id);
            lemma_limit_order_delta(*self, acc@, *o);
        }
        let _ = remove_by_id(&mut orders, o.id());
        insert_sorted(&mut orders, *o);
        proof {
            lemma_order_margin_in_range(
                orders@,
                acc@.size,
                self.futures_type,
                acc@.leverage,
                self.fee_maker@,
            );
            lemma_order_margin_in_range(
                acc@.orders,
                acc@.size,
                acc@.futures_type,
                acc@.leverage,
                acc@.fee_maker,
            );
        }
        let needed = order_margin(
            &orders,
            acc.position().size(),
            self.futures_type,
            acc.position().leverage(),
            self.fee_maker,
        );
        needed.sub(acc.margin().order_margin())
    }

    /// Validates the market order `o` as `validate_market_order` does, if
    /// the price at which it would trade is positive; else returns `None`.
    pub fn try_validate_market_order(&self, o: &Order, acc: &Account) -> (r: Option<
        Result<(), OrderError>,
    >)
        requires
            self.wf(),
            acc.wf(),
            o.size@ > 0,
        ensures
            r.is_some() <==> self.price_for(o.side) > 0,
            r.is_some() ==> (r.unwrap().is_ok() <==> self.market_order_credit(
                acc@,
                o.side,
                o.size@,
            ) <= acc@.available() + self.market_order_debit(acc@, o.side, o.size@)),
            r.is_some() && r.unwrap().is_err() ==> r.unwrap() == Err::<(), OrderError>(
                OrderError::NotEnoughAvailableBalance,
            ),
    {
        let price = match o.side() {
            Side::Buy => self.ask,
            Side::Sell => self.bid,
        };
        if !price.inner().is_positive() {
            return None;
        }
        Some(self.validate_market_order(o, acc))
    }

    /// Whether the totals of the resting orders together with the limit
    /// order `o` are representable, so that `o` can be validated.
    pub fn limit_order_representable(&self, o: &Order, acc: &Account) -> (r: bool)
        requires
            self.wf(),
            acc.wf(),
            o.wf(),
            o.is_limit(),
        ensures
            r == order_margin_defined(
                with_order(acc@.orders, *o),
                self.futures_type,
                self.fee_maker@,
            ),
    {
        let mut orders = copy_orders(acc.active_limit_orders());
        proof {
            lemma_with_order_valid(acc@.orders, *o);
            lemma_removed_sorted(acc@.orders, o.id);
        }
        let _ = remove_by_id(&mut orders, o.id());
        insert_sorted(&mut orders, *o);
        order_margin_representable(&orders, self.futures_type, self.fee_maker)
    }

    /// Validates the limit order `o` as `validate_limit_order` does, if
    /// the totals of the resting orders together with `o` are
    /// representable; else returns `None`.
    pub fn try_validate_limit_order(&self, o: &Order, acc: &Account) -> (r: Option<
        Result<Decimal, OrderError>,
    >)
        requires
            self.wf(),
            acc.wf(),
            o.wf(),
            o.is_limit(),
        ensures
            r.is_some() <==> order_margin_defined(
                with_order(acc@.orders, *o),
                self.futures_type,
                self.fee_maker@,
            ),
            r.is_some() ==> match self.limit_order_verdict(acc@, *o) {
                Ok(delta) => r.unwrap().is_ok() && r.unwrap().unwrap()@ == delta,
                Err(e) => r.unwrap() == Err::<Decimal, OrderError>(e),
            },
            r.is_some() && r.unwrap().is_ok() ==> acc@.available() - r.unwrap().unwrap()@ >= 0
                && acc@.order_margin + r.unwrap().unwrap()@ >= 0,
            r.is_some() && r.unwrap().is_ok() && !has_id(acc@.orders, o.id) && self.follows(acc@)
                ==> r.unwrap().unwrap()@ >= 0 && acc@.order_margin + r.unwrap().unwrap()@
                == appended(acc@, *o).order_margin,
    {
        if !self.limit_order_representable(o, acc) {
            return None;
        }
        Some(self.validate_limit_order(o, acc))
    }
}

/// What the order margin of an account and the cost of one more limit
/// order come to: together they are the order margin of the resting orders
/// with the new one, which is never negative; and for an order with a new
/// identifier, under the flavour and the maker fee of the account, the cost
/// is not negative and the sum is the order margin after the order rests.
pub proof fn lemma_limit_order_delta(validator: Validator, v: AccountView, o: Order)
    requires
        validator.fee_maker.wf(),
        v.wf(),
        o.wf(),
        o.is_limit(),
    ensures
        v.order_margin + validator.limit_order_delta(v, o) == order_margin_raw(
            with_order(v.orders, o),
            v.size,
            validator.futures_type,
            v.leverage,
            validator.fee_maker@,
        ),
        v.order_margin + validator.limit_order_delta(v, o) >= 0,
        !has_id(v.orders, o.id) && validator.follows(v) ==> validator.limit_order_delta(v, o) >= 0
            && v.order_margin + validator.limit_order_delta(v, o) == appended(v, o).order_margin,
{
    lemma_with_order_valid(v.orders, o);
    crate::order_margin::lemma_order_margin_nonneg(
        with_order(v.orders, o),
        v.size,
        validator.futures_type,
        v.leverage,
        validator.fee_maker@,
    );
    if !has_id(v.orders, o.id) && validator.follows(v) {
        lemma_rank_bounds(v.orders, o.id);
        crate::order_margin::lemma_order_margin_monotone(
            v.orders,
            rank(v.orders, o.id),
            o,
            v.size,
            v.futures_type,
            v.leverage,
            v.fee_maker,
        );
    }
}

/// The orders that are left when one is taken out of limit orders are limit orders.
pub proof fn lemma_removed_all_limit(orders: Seq<Order>, id: u64)
    requires
        all_limit(orders),
        sorted_by_id(orders),
    ensures
        all_limit(removed(orders, id)),
{
    lemma_removed_sorted(orders, id);
    let rest = removed(orders, id);
    assert forall|k: int| 0 <= k < rest.len() implies (#[trigger] rest[k]).wf()
        && rest[k].is_limit() by {
        let m = crate::active_orders::index_before(orders, id, k);
        crate::active_orders::lemma_removed_index(orders, id, k);
        assert(orders[m].wf());
    }
}

/// Limit orders together with one more limit order are limit orders.
pub proof fn lemma_inserted_all_limit(orders: Seq<Order>, o: Order)
    requires
        all_limit(orders),
        o.wf(),
        o.is_limit(),
    ensures
        all_limit(inserted(orders, o)),
{
    lemma_rank_bounds(orders, o.id);
    let r = rank(orders, o.id);
    let all = inserted(orders, o);
    assert forall|k: int| 0 <= k < all.len() implies (#[trigger] all[k]).wf()
        && all[k].is_limit() by {
        if k < r {
            assert(all[k] == orders[k]);
        } else if k > r {
            assert(all[k] == orders[k - 1]);
        }
    }
}

/// The resting orders together with a limit order are limit orders in
/// ascending order of identifier.
pub proof fn lemma_with_order_valid(orders: Seq<Order>, o: Order)
    requires
        all_limit(orders),
        sorted_by_id(orders),
        o.wf(),
        o.is_limit(),
    ensures
        all_limit(with_order(orders, o)),
        sorted_by_id(with_order(orders, o)),
        !has_id(orders, o.id) ==> with_order(orders, o) == inserted(orders, o),
{
    lemma_removed_sorted(orders, o.id);
    lemma_removed_all_limit(orders, o.id);
    crate::active_orders::lemma_index_of_id(orders, o.id);
    let rest = removed(orders, o.id);
    crate::active_orders::lemma_inserted_sorted(rest, o);
    lemma_inserted_all_limit(rest, o);
}

/// The value of a non-negative size at a positive price, as a raw amount,
/// with room for values that a `Decimal` cannot hold.
pub fn notional_wide(ft: FuturesType, size: Decimal, price: QuoteCurrency) -> (r: i128)
    requires
        size@ >= 0,
        price@ > 0,
    ensures
        r == notional_raw(ft, size@, price@),
        0 <= r <= 0x10_0000_0000_0000_0000_0000_0000,
{
    let s: i128 = size.raw() as i128;
    let p: i128 = price.inner().raw() as i128;
    match ft {
        FuturesType::Linear => {
            assert(0 <= s * p <= 0x7fff_ffff_ffff_ffff * 0x7fff_ffff_ffff_ffff)
                by (nonlinear_arith)
                requires
                    0 <= s <= 0x7fff_ffff_ffff_ffff,
                    0 <= p <= 0x7fff_ffff_ffff_ffff,
            ;
            let r: i128 = div_round_exec(s * p, SCALE as i128);
            proof {
                lemma_div_round_nonneg(s * p, scale());
                lemma_div_round_bounds(s * p, scale());
            }
            r
        },
        FuturesType::Inverse => {
            assert(0 <= s * 100_000_000 <= 0x7fff_ffff_ffff_ffff * 100_000_000)
                by (nonlinear_arith)
                requires
                    0 <= s <= 0x7fff_ffff_ffff_ffff,
            ;
            let r: i128 = div_round_exec(s * (SCALE as i128), p);
            proof {
                lemma_div_round_nonneg(s * scale(), p as int);
            }
            r
        },
    }
}

} // verus!
