//! An isolated position: size, average entry price and the collateral tied to it.

use vstd::prelude::*;
use crate::currency::{Leverage, QuoteCurrency, checked_margin_amount, checked_pnl,
    lemma_margin_nonneg, lemma_margin_zero,
    margin_amount,
    margin_defined, margin_raw,
    notional, notional_raw, pnl, pnl_defined, pnl_raw};
use crate::decimal::{Decimal, div_raw, div_round, div_round_exec, in_range,
    lemma_div_round_exact, lemma_div_round_monotone};
use crate::errors::Error;
use crate::side::FuturesType;

verus! {

/// The position of an account under isolated margin.
#[derive(Clone, Copy, Debug, PartialEq, Eq)]
pub struct Position {
    /// The number of contracts: positive when long, negative when short.
    pub size: Decimal,
    /// The average price at which the open contracts were entered.
    pub entry_price: QuoteCurrency,
    /// The collateral tied to the position.
    pub position_margin: Decimal,
    /// The leverage of the position.
    pub leverage: Leverage,
    /// The contract flavour.
    pub futures_type: FuturesType,
}

/// Raw average entry price after `qty` contracts at `price` join `size`
/// contracts entered at `entry`; both counts are magnitudes.
pub open spec fn average_entry_raw(entry: int, size: int, price: int, qty: int) -> int
    recommends
        size >= 0,
        qty > 0,
{
    div_round(entry * size + price * qty, size + qty)
}

/// Raw profit that the position would realise if it were closed now: a long
/// is valued at the bid, a short at the ask.
pub open spec fn unrealized_pnl_raw(p: Position, bid: int, ask: int) -> int {
    if p.size@ > 0 {
        pnl_raw(p.futures_type, p.entry_price@, bid, p.size@)
    } else if p.size@ < 0 {
        pnl_raw(p.futures_type, p.entry_price@, ask, p.size@)
    } else {
        0
    }
}

/// Every step of the computation of the unrealized profit is representable.
pub open spec fn unrealized_pnl_defined(p: Position, bid: int, ask: int) -> bool {
    &&& p.size@ > 0 ==> bid > 0 && pnl_defined(p.futures_type, p.entry_price@, bid, p.size@)
    &&& p.size@ < 0 ==> ask > 0 && pnl_defined(p.futures_type, p.entry_price@, ask, p.size@)
}

/// The average of two prices, weighted by non-negative counts, lies between them.
pub proof fn lemma_average_entry_bounds(entry: int, size: int, price: int, qty: int)
    requires
        size >= 0,
        qty > 0,
    ensures
        entry <= price ==> entry <= average_entry_raw(entry, size, price, qty) <= price,
        price <= entry ==> price <= average_entry_raw(entry, size, price, qty) <= entry,
{
    let n = entry * size + price * qty;
    let d = size + qty;
    let lo = if entry <= price {
        entry
    } else {
        price
    };
    let hi = if entry <= price {
        price
    } else {
        entry
    };
    assert(lo * d <= n <= hi * d) by (nonlinear_arith)
        requires
            n == entry * size + price * qty,
            d == size + qty,
            size >= 0,
            qty > 0,
            lo <= entry <= hi,
            lo <= price <= hi,
    ;
    assert((lo * d) * d <= n * d && n * d <= (hi * d) * d) by (nonlinear_arith)
        requires
            lo * d <= n <= hi * d,
            d > 0,
    ;
    lemma_div_round_monotone(lo * d, d, n, d);
    lemma_div_round_monotone(n, d, hi * d, d);
    lemma_div_round_exact(lo, d);
    lemma_div_round_exact(hi, d);
}

impl Position {
    /// The leverage is valid, the size can be negated, an open position has
    /// a positive entry price, and the collateral is not negative.
    pub open spec fn wf(self) -> bool {
        &&& self.leverage.wf()
        &&& in_range(self.size@)
        &&& self.entry_price@ >= 0
        &&& self.size@ != 0 ==> self.entry_price@ > 0
        &&& self.position_margin@ >= 0
    }

    /// A flat position.
    pub fn new(leverage: Leverage, futures_type: FuturesType) -> (r: Position)
        requires
            leverage.wf(),
        ensures
            r.wf(),
            r.size@ == 0,
            r.entry_price@ == 0,
            r.position_margin@ == 0,
            r.leverage == leverage,
            r.futures_type == futures_type,
    {
        Position {
            size: Decimal::zero(),
            entry_price: QuoteCurrency::new_zero(),
            position_margin: Decimal::zero(),
            leverage,
            futures_type,
        }
    }

    /// The number of contracts: positive when long, negative when short.
    pub fn size(&self) -> (r: Decimal)
        ensures
            r == self.size,
    {
        self.size
    }

    /// The average price at which the open contracts were entered.
    pub fn entry_price(&self) -> (r: QuoteCurrency)
        ensures
            r == self.entry_price,
    {
        self.entry_price
    }

    /// The collateral tied to the position.
    pub fn position_margin(&self) -> (r: Decimal)
        ensures
            r == self.position_margin,
    {
        self.position_margin
    }

    /// The leverage of the position.
    pub fn leverage(&self) -> (r: Leverage)
        ensures
            r == self.leverage,
    {
        self.leverage
    }

    /// The contract flavour.
    pub fn futures_type(&self) -> (r: FuturesType)
        ensures
            r == self.futures_type,
    {
        self.futures_type
    }

    /// The value of the position at `price` divided by the collateral
    /// behind it. There has to be collateral.
    pub fn implied_leverage(&self, price: QuoteCurrency) -> (r: Decimal)
        requires
            price@ > 0,
            self.position_margin@ != 0,
            in_range(notional_raw(self.futures_type, self.size@, price@)),
            in_range(
                div_raw(notional_raw(self.futures_type, self.size@, price@), self.position_margin@),
            ),
        ensures
            r@ == div_raw(
                notional_raw(self.futures_type, self.size@, price@),
                self.position_margin@,
            ),
    {
        let value = notional(self.futures_type, self.size, price);
        value.div(self.position_margin)
    }

    /// The profit that the position would realise if it were closed now: a
    /// long is valued at the bid, a short at the ask.
    pub fn unrealized_pnl(&self, bid: QuoteCurrency, ask: QuoteCurrency) -> (r: Decimal)
        requires
            self.wf(),
            unrealized_pnl_defined(*self, bid@, ask@),
        ensures
            r@ == unrealized_pnl_raw(*self, bid@, ask@),
    {
        if self.size.is_positive() {
            pnl(self.futures_type, self.entry_price, bid, self.size)
        } else if self.size.is_negative() {
            pnl(self.futures_type, self.entry_price, ask, self.size)
        } else {
            Decimal::zero()
        }
    }

    /// Adds `margin` to the collateral of the position.
    pub fn deposit_variation_margin(&mut self, margin: Decimal)
        requires
            margin@ >= 0,
            in_range(old(self).position_margin@ + margin@),
        ensures
            old(self).wf() ==> final(self).wf(),
            final(self).position_margin@ == old(self).position_margin@ + margin@,
            final(self).size == old(self).size,
            final(self).entry_price == old(self).entry_price,
            final(self).leverage == old(self).leverage,
            final(self).futures_type == old(self).futures_type,
    {
        self.position_margin = self.position_margin.add(margin);
    }

    /// Takes `margin` out of the collateral of the position, which has to hold that much.
    pub fn release_variation_margin(&mut self, margin: Decimal)
        requires
            0 <= margin@ <= old(self).position_margin@,
        ensures
            old(self).wf() ==> final(self).wf(),
            final(self).position_margin@ == old(self).position_margin@ - margin@,
            final(self).size == old(self).size,
            final(self).entry_price == old(self).entry_price,
            final(self).leverage == old(self).leverage,
            final(self).futures_type == old(self).futures_type,
    {
        self.position_margin = self.position_margin.sub(margin);
    }

    /// Sets size, entry price and collateral at once. Refused, with the
    /// position unchanged, unless the price is positive.
    pub fn open_position(&mut self, size: Decimal, price: QuoteCurrency, position_margin: Decimal)
        -> (r: Result<(), Error>)
        ensures
            price@ <= 0 ==> r == Err::<(), Error>(Error::InvalidPrice) && *final(self) == *old(
                self,
            ),
            price@ > 0 ==> r == Ok::<(), Error>(()) && *final(self) == (Position {
                size,
                entry_price: price,
                position_margin,
                ..*old(self)
            }),
            old(self).wf() && in_range(size@) && position_margin@ >= 0 ==> final(self).wf(),
    {
        if !price.inner().is_positive() {
            return Err(Error::InvalidPrice);
        }
        self.size = size;
        self.entry_price = price;
        self.position_margin = position_margin;
        Ok(())
    }

    /// Adds `quantity` contracts bought at `price` to a flat or long
    /// position, together with their collateral. The entry price becomes
    /// the average of the old one and `price`, weighted by the sizes.
    pub fn increase_long(
        &mut self,
        quantity: Decimal,
        price: QuoteCurrency,
        additional_margin: Decimal,
    )
        requires
            old(self).wf(),
            old(self).size@ >= 0,
            quantity@ > 0,
            price@ > 0,
            additional_margin@ >= 0,
            in_range(old(self).size@ + quantity@),
            in_range(old(self).position_margin@ + additional_margin@),
        ensures
            final(self).wf(),
            final(self).size@ == old(self).size@ + quantity@,
            final(self).entry_price@ == average_entry_raw(
                old(self).entry_price@,
                old(self).size@,
                price@,
                quantity@,
            ),
            final(self).position_margin@ == old(self).position_margin@ + additional_margin@,
            final(self).leverage == old(self).leverage,
            final(self).futures_type == old(self).futures_type,
    {
        self.entry_price = average_entry(self.entry_price, self.size, price, quantity);
        self.size = self.size.add(quantity);
        self.position_margin = self.position_margin.add(additional_margin);
    }

    /// Takes `quantity` contracts, sold at `price`, out of a long position
    /// and returns the profit realised on them. The entry price stays; the
    /// collateral is computed afresh from what is left.
    pub fn decrease_long(&mut self, quantity: Decimal, price: QuoteCurrency) -> (r: Decimal)
        requires
            old(self).wf(),
            old(self).size@ > 0,
            0 < quantity@ <= old(self).size@,
            price@ > 0,
            pnl_defined(old(self).futures_type, old(self).entry_price@, price@, quantity@),
            quantity@ < old(self).size@ ==> margin_defined(
                old(self).futures_type,
                old(self).size@ - quantity@,
                old(self).entry_price@,
                old(self).leverage@,
            ),
        ensures
            final(self).wf(),
            final(self).size@ == old(self).size@ - quantity@,
            final(self).entry_price == old(self).entry_price,
            final(self).position_margin@ == margin_raw(
                old(self).futures_type,
                old(self).size@ - quantity@,
                old(self).entry_price@,
                old(self).leverage@,
            ),
            final(self).leverage == old(self).leverage,
            final(self).futures_type == old(self).futures_type,
            r@ == pnl_raw(old(self).futures_type, old(self).entry_price@, price@, quantity@),
            quantity@ == old(self).size@ ==> final(self).size@ == 0
                && final(self).position_margin@ == 0,
    {
        proof {
            lemma_margin_nonneg(
                self.futures_type,
                self.size@ - quantity@,
                self.entry_price@,
                self.leverage@,
            );
            lemma_margin_zero(self.futures_type, self.entry_price@, self.leverage@);
        }
        self.size = self.size.sub(quantity);
        self.position_margin = margin_amount(
            self.futures_type,
            self.size.abs(),
            self.entry_price,
            self.leverage,
        );
        pnl(self.futures_type, self.entry_price, price, quantity)
    }

    /// Adds `quantity` contracts sold at `price` to a flat or short
    /// position, together with their collateral. The entry price becomes
    /// the average of the old one and `price`, weighted by the magnitudes
    /// of the sizes.
    pub fn increase_short(
        &mut self,
        quantity: Decimal,
        price: QuoteCurrency,
        additional_margin: Decimal,
    )
        requires
            old(self).wf(),
            old(self).size@ <= 0,
            quantity@ > 0,
            price@ > 0,
            additional_margin@ >= 0,
            in_range(old(self).size@ - quantity@),
            in_range(old(self).position_margin@ + additional_margin@),
        ensures
            final(self).wf(),
            final(self).size@ == old(self).size@ - quantity@,
            final(self).entry_price@ == average_entry_raw(
                old(self).entry_price@,
                -old(self).size@,
                price@,
                quantity@,
            ),
            final(self).position_margin@ == old(self).position_margin@ + additional_margin@,
            final(self).leverage == old(self).leverage,
            final(self).futures_type == old(self).futures_type,
    {
        self.entry_price = average_entry(self.entry_price, self.size.abs(), price, quantity);
        self.size = self.size.sub(quantity);
        self.position_margin = self.position_margin.add(additional_margin);
    }

    /// Takes `quantity` contracts, bought back at `price`, out of a short
    /// position and returns the profit realised on them. The entry price
    /// stays; the collateral is computed afresh from what is left.
    pub fn decrease_short(&mut self, quantity: Decimal, price: QuoteCurrency) -> (r: Result<
        Decimal,
        Error,
    >)
        requires
            old(self).wf(),
            old(self).size@ < 0,
            0 < quantity@ <= -old(self).size@,
            price@ > 0,
            pnl_defined(old(self).futures_type, old(self).entry_price@, price@, -quantity@),
            quantity@ < -old(self).size@ ==> margin_defined(
                old(self).futures_type,
                -old(self).size@ - quantity@,
                old(self).entry_price@,
                old(self).leverage@,
            ),
        ensures
            final(self).wf(),
            final(self).size@ == old(self).size@ + quantity@,
            final(self).entry_price == old(self).entry_price,
            final(self).position_margin@ == margin_raw(
                old(self).futures_type,
                -old(self).size@ - quantity@,
                old(self).entry_price@,
                old(self).leverage@,
            ),
            final(self).leverage == old(self).leverage,
            final(self).futures_type == old(self).futures_type,
            r.is_ok(),
            r.unwrap()@ == pnl_raw(
                old(self).futures_type,
                old(self).entry_price@,
                price@,
                -quantity@,
            ),
            quantity@ == -old(self).size@ ==> final(self).size@ == 0
                && final(self).position_margin@ == 0,
    {
        proof {
            lemma_margin_nonneg(
                self.futures_type,
                -self.size@ - quantity@,
                self.entry_price@,
                self.leverage@,
            );
            lemma_margin_zero(self.futures_type, self.entry_price@, self.leverage@);
        }
        self.size = self.size.add(quantity);
        self.position_margin = margin_amount(
            self.futures_type,
            self.size.abs(),
            self.entry_price,
            self.leverage,
        );
        Ok(pnl(self.futures_type, self.entry_price, price, quantity.neg()))
    }

    /// Reduces a long position as `decrease_long` does, if the profit and
    /// the collateral of what is left are representable; else leaves the
    /// position alone and returns `None`.
    pub fn try_decrease_long(&mut self, quantity: Decimal, price: QuoteCurrency) -> (r: Option<
        Decimal,
    >)
        requires
            old(self).wf(),
            old(self).size@ > 0,
            0 < quantity@ <= old(self).size@,
            price@ > 0,
        ensures
            final(self).wf(),
            r.is_some() <==> pnl_defined(
                old(self).futures_type,
                old(self).entry_price@,
                price@,
                quantity@,
            ) && (quantity@ < old(self).size@ ==> margin_defined(
                old(self).futures_type,
                old(self).size@ - quantity@,
                old(self).entry_price@,
                old(self).leverage@,
            )),
            r.is_none() ==> *final(self) == *old(self),
            r.is_some() ==> {
                &&& r.unwrap()@ == pnl_raw(
                    old(self).futures_type,
                    old(self).entry_price@,
                    price@,
                    quantity@,
                )
                &&& final(self).size@ == old(self).size@ - quantity@
                &&& final(self).entry_price == old(self).entry_price
                &&& final(self).position_margin@ == margin_raw(
                    old(self).futures_type,
                    old(self).size@ - quantity@,
                    old(self).entry_price@,
                    old(self).leverage@,
                )
                &&& final(self).leverage == old(self).leverage
                &&& final(self).futures_type == old(self).futures_type
                &&& quantity@ == old(self).size@ ==> final(self).position_margin@ == 0
            },
    {
        proof {
            lemma_margin_zero(self.futures_type, self.entry_price@, self.leverage@);
        }
        if checked_pnl(self.futures_type, self.entry_price, price, quantity).is_none() {
            return None;
        }
        if checked_margin_amount(
            self.futures_type,
            self.size.sub(quantity),
            self.entry_price,
            self.leverage,
        ).is_none() {
            return None;
        }
        Some(self.decrease_long(quantity, price))
    }

    /// Reduces a short position as `decrease_short` does, if the profit
    /// and the collateral of what is left are representable; else leaves
    /// the position alone and returns `None`.
    pub fn try_decrease_short(&mut self, quantity: Decimal, price: QuoteCurrency) -> (r: Option<
        Decimal,
    >)
        requires
            old(self).wf(),
            old(self).size@ < 0,
            0 < quantity@ <= -old(self).size@,
            price@ > 0,
        ensures
            final(self).wf(),
            r.is_some() <==> pnl_defined(
                old(self).futures_type,
                old(self).entry_price@,
                price@,
                -quantity@,
            ) && (quantity@ < -old(self).size@ ==> margin_defined(
                old(self).futures_type,
                -old(self).size@ - quantity@,
                old(self).entry_price@,
                old(self).leverage@,
            )),
            r.is_none() ==> *final(self) == *old(self),
            r.is_some() ==> {
                &&& r.unwrap()@ == pnl_raw(
                    old(self).futures_type,
                    old(self).entry_price@,
                    price@,
                    -quantity@,
                )
                &&& final(self).size@ == old(self).size@ + quantity@
                &&& final(self).entry_price == old(self).entry_price
                &&& final(self).position_margin@ == margin_raw(
                    old(self).futures_type,
                    -old(self).size@ - quantity@,
                    old(self).entry_price@,
                    old(self).leverage@,
                )
                &&& final(self).leverage == old(self).leverage
                &&& final(self).futures_type == old(self).futures_type
                &&& quantity@ == -old(self).size@ ==> final(self).position_margin@ == 0
            },
    {
        proof {
            lemma_margin_zero(self.futures_type, self.entry_price@, self.leverage@);
        }
        if checked_pnl(self.futures_type, self.entry_price, price, quantity.neg()).is_none() {
            return None;
        }
        if checked_margin_amount(
            self.futures_type,
            self.size.add(quantity).abs(),
            self.entry_price,
            self.leverage,
        ).is_none() {
            return None;
        }
        match self.decrease_short(quantity, price) {
            Ok(realized) => Some(realized),
            Err(_) => None,
        }
    }

    /// Enlarges a flat or long position as `increase_long` does, if the new
    /// size and the new collateral are representable, and says whether it did.
    pub fn try_increase_long(
        &mut self,
        quantity: Decimal,
        price: QuoteCurrency,
        additional_margin: Decimal,
    ) -> (r: bool)
        requires
            old(self).wf(),
            old(self).size@ >= 0,
            quantity@ > 0,
            price@ > 0,
            additional_margin@ >= 0,
        ensures
            final(self).wf(),
            r == (in_range(old(self).size@ + quantity@) && in_range(
                old(self).position_margin@ + additional_margin@,
            )),
            !r ==> *final(self) == *old(self),
            r ==> {
                &&& final(self).size@ == old(self).size@ + quantity@
                &&& final(self).entry_price@ == average_entry_raw(
                    old(self).entry_price@,
                    old(self).size@,
                    price@,
                    quantity@,
                )
                &&& final(self).position_margin@ == old(self).position_margin@
                    + additional_margin@
                &&& final(self).leverage == old(self).leverage
                &&& final(self).futures_type == old(self).futures_type
            },
    {
        if self.size.checked_add(quantity).is_none() || self.position_margin.checked_add(
            additional_margin,
        ).is_none() {
            return false;
        }
        self.increase_long(quantity, price, additional_margin);
        true
    }

    /// Enlarges a flat or short position as `increase_short` does, if the
    /// new size and the new collateral are representable, and says whether
    /// it did.
    pub fn try_increase_short(
        &mut self,
        quantity: Decimal,
        price: QuoteCurrency,
        additional_margin: Decimal,
    ) -> (r: bool)
        requires
            old(self).wf(),
            old(self).size@ <= 0,
            quantity@ > 0,
            price@ > 0,
            additional_margin@ >= 0,
        ensures
            final(self).wf(),
            r == (in_range(old(self).size@ - quantity@) && in_range(
                old(self).position_margin@ + additional_margin@,
            )),
            !r ==> *final(self) == *old(self),
            r ==> {
                &&& final(self).size@ == old(self).size@ - quantity@
                &&& final(self).entry_price@ == average_entry_raw(
                    old(self).entry_price@,
                    -old(self).size@,
                    price@,
                    quantity@,
                )
                &&& final(self).position_margin@ == old(self).position_margin@
                    + additional_margin@
                &&& final(self).leverage == old(self).leverage
                &&& final(self).futures_type == old(self).futures_type
            },
    {
        if self.size.checked_sub(quantity).is_none() || self.position_margin.checked_add(
            additional_margin,
        ).is_none() {
            return false;
        }
        self.increase_short(quantity, price, additional_margin);
        true
    }
}

/// The average of `entry` and `price`, weighted by `size` and `quantity`.
pub fn average_entry(entry: QuoteCurrency, size: Decimal, price: QuoteCurrency, quantity: Decimal)
    -> (r: QuoteCurrency)
    requires
        entry@ >= 0,
        size@ >= 0,
        price@ > 0,
        quantity@ > 0,
        in_range(size@ + quantity@),
    ensures
        r@ == average_entry_raw(entry@, size@, price@, quantity@),
        r@ > 0 || entry@ == 0,
        size@ == 0 ==> r@ == price@,
{
    let e: i128 = entry.inner().raw() as i128;
    let z: i128 = size.raw() as i128;
    let p: i128 = price.inner().raw() as i128;
    let q: i128 = quantity.raw() as i128;
    assert(0 <= e * z <= 0x7fff_ffff_ffff_ffff * 0x7fff_ffff_ffff_ffff) by (nonlinear_arith)
        requires
            0 <= e <= 0x7fff_ffff_ffff_ffff,
            0 <= z <= 0x7fff_ffff_ffff_ffff,
    ;
    assert(0 <= p * q <= 0x7fff_ffff_ffff_ffff * 0x7fff_ffff_ffff_ffff) by (nonlinear_arith)
        requires
            0 <= p <= 0x7fff_ffff_ffff_ffff,
            0 <= q <= 0x7fff_ffff_ffff_ffff,
    ;
    let n: i128 = e * z + p * q;
    let d: i128 = z + q;
    let a: i128 = div_round_exec(n, d);
    proof {
        lemma_average_entry_bounds(entry@, size@, price@, quantity@);
        if size@ == 0 {
            assert(entry@ * 0 == 0);
            assert(n == price@ * quantity@);
            lemma_div_round_exact(price@, quantity@);
        }
    }
    QuoteCurrency::new(Decimal::from_raw(a as i64))
}

} // verus!
