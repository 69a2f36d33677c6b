//! Typed money: quote and base currency amounts, fee rates, leverage, and
//! the conversions between the size of a contract and its value in the
//! collateral currency.

use vstd::prelude::*;
use crate::decimal::{Decimal, div_raw, in_range, mul_raw, scale, SCALE,
    lemma_div_round_nonneg, lemma_div_round_monotone, lemma_div_round_exact};
use crate::side::FuturesType;

verus! {

/// An amount of the quote currency; also the type of every price.
#[derive(Clone, Copy, Debug, PartialEq, Eq, Structural, PartialOrd, Ord, Hash)]
pub struct QuoteCurrency {
    /// The amount.
    pub value: Decimal,
}

/// An amount of the base currency.
#[derive(Clone, Copy, Debug, PartialEq, Eq, Structural, PartialOrd, Ord, Hash)]
pub struct BaseCurrency {
    /// The amount.
    pub value: Decimal,
}

impl View for QuoteCurrency {
    type V = int;

    open spec fn view(&self) -> int {
        self.value@
    }
}

impl View for BaseCurrency {
    type V = int;

    open spec fn view(&self) -> int {
        self.value@
    }
}

impl QuoteCurrency {
    /// The amount `value` of quote currency.
    pub fn new(value: Decimal) -> (r: QuoteCurrency)
        ensures
            r@ == value@,
            r.value == value,
    {
        QuoteCurrency { value }
    }

    /// The amount as a plain number.
    pub fn inner(self) -> (r: Decimal)
        ensures
            r@ == self@,
            r == self.value,
    {
        self.value
    }

    /// No quote currency at all.
    pub fn new_zero() -> (r: QuoteCurrency)
        ensures
            r@ == 0,
    {
        QuoteCurrency { value: Decimal::zero() }
    }

    /// Whether the amount is zero.
    pub fn is_zero(self) -> (r: bool)
        ensures
            r == (self@ == 0),
    {
        self.value.is_zero()
    }

    /// The sum of two amounts.
    pub fn add(self, other: QuoteCurrency) -> (r: QuoteCurrency)
        requires
            in_range(self@ + other@),
        ensures
            r@ == self@ + other@,
    {
        QuoteCurrency { value: self.value.add(other.value) }
    }

    /// The difference of two amounts.
    pub fn sub(self, other: QuoteCurrency) -> (r: QuoteCurrency)
        requires
            in_range(self@ - other@),
        ensures
            r@ == self@ - other@,
    {
        QuoteCurrency { value: self.value.sub(other.value) }
    }

    /// The magnitude of the amount.
    pub fn abs(self) -> (r: QuoteCurrency)
        requires
            in_range(self@),
        ensures
            r@ == if self@ >= 0 {
                self@
            } else {
                -self@
            },
    {
        QuoteCurrency { value: self.value.abs() }
    }

    /// The amount with the opposite sign.
    pub fn into_negative(self) -> (r: QuoteCurrency)
        requires
            in_range(self@),
        ensures
            r@ == -self@,
    {
        QuoteCurrency { value: self.value.neg() }
    }

    /// The share of the amount that the fee rate takes.
    pub fn fee_portion(self, fee: Fee) -> (r: QuoteCurrency)
        requires
            in_range(mul_raw(self@, fee@)),
        ensures
            r@ == mul_raw(self@, fee@),
    {
        QuoteCurrency { value: self.value.mul(fee.rate) }
    }

    /// The amount of base currency that this amount buys at `rate` quote per
    /// base: the amount divided by the rate.
    pub fn convert(self, rate: QuoteCurrency) -> (r: BaseCurrency)
        requires
            rate@ > 0,
            in_range(div_raw(self@, rate@)),
        ensures
            r@ == div_raw(self@, rate@),
    {
        BaseCurrency { value: self.value.div(rate.value) }
    }
}

impl BaseCurrency {
    /// The amount `value` of base currency.
    pub fn new(value: Decimal) -> (r: BaseCurrency)
        ensures
            r@ == value@,
            r.value == value,
    {
        BaseCurrency { value }
    }

    /// The amount as a plain number.
    pub fn inner(self) -> (r: Decimal)
        ensures
            r@ == self@,
            r == self.value,
    {
        self.value
    }

    /// No base currency at all.
    pub fn new_zero() -> (r: BaseCurrency)
        ensures
            r@ == 0,
    {
        BaseCurrency { value: Decimal::zero() }
    }

    /// Whether the amount is zero.
    pub fn is_zero(self) -> (r: bool)
        ensures
            r == (self@ == 0),
    {
        self.value.is_zero()
    }

    /// The sum of two amounts.
    pub fn add(self, other: BaseCurrency) -> (r: BaseCurrency)
        requires
            in_range(self@ + other@),
        ensures
            r@ == self@ + other@,
    {
        BaseCurrency { value: self.value.add(other.value) }
    }

    /// The difference of two amounts.
    pub fn sub(self, other: BaseCurrency) -> (r: BaseCurrency)
        requires
            in_range(self@ - other@),
        ensures
            r@ == self@ - other@,
    {
        BaseCurrency { value: self.value.sub(other.value) }
    }

    /// The magnitude of the amount.
    pub fn abs(self) -> (r: BaseCurrency)
        requires
            in_range(self@),
        ensures
            r@ == if self@ >= 0 {
                self@
            } else {
                -self@
            },
    {
        BaseCurrency { value: self.value.abs() }
    }

    /// The amount with the opposite sign.
    pub fn into_negative(self) -> (r: BaseCurrency)
        requires
            in_range(self@),
        ensures
            r@ == -self@,
    {
        BaseCurrency { value: self.value.neg() }
    }

    /// The share of the amount that the fee rate takes.
    pub fn fee_portion(self, fee: Fee) -> (r: BaseCurrency)
        requires
            in_range(mul_raw(self@, fee@)),
        ensures
            r@ == mul_raw(self@, fee@),
    {
        BaseCurrency { value: self.value.mul(fee.rate) }
    }

    /// The amount of quote currency that this amount is worth at `rate`
    /// quote per base: the amount times the rate.
    pub fn convert(self, rate: QuoteCurrency) -> (r: QuoteCurrency)
        requires
            in_range(mul_raw(self@, rate@)),
        ensures
            r@ == mul_raw(self@, rate@),
    {
        QuoteCurrency { value: self.value.mul(rate.value) }
    }
}

/// A fee rate: the fraction of a traded amount that is charged, between
/// zero and one.
#[derive(Clone, Copy, Debug, PartialEq, Eq, Structural, Hash)]
pub struct Fee {
    /// The rate.
    pub rate: Decimal,
}

impl View for Fee {
    type V = int;

    open spec fn view(&self) -> int {
        self.rate@
    }
}

impl Fee {
    /// The rate is a fraction: neither negative nor above one.
    pub open spec fn wf(self) -> bool {
        0 <= self@ <= scale()
    }

    /// The fee with the given rate, or `None` for a rate that is negative
    /// or above one.
    pub fn new(rate: Decimal) -> (r: Option<Fee>)
        ensures
            r.is_some() <==> 0 <= rate@ <= scale(),
            r.is_some() ==> r.unwrap().rate == rate && r.unwrap().wf(),
    {
        if rate.is_negative() || rate.raw() > SCALE {
            None
        } else {
            Some(Fee { rate })
        }
    }

    /// The rate.
    pub fn inner(self) -> (r: Decimal)
        ensures
            r == self.rate,
    {
        self.rate
    }
}

/// The share that a fee takes of a non-negative amount is not negative and
/// at most the amount.
pub proof fn lemma_fee_share(amount: int, fee: int)
    requires
        amount >= 0,
        0 <= fee <= scale(),
    ensures
        0 <= mul_raw(amount, fee) <= amount,
{
    assert(0 <= amount * fee <= amount * scale()) by (nonlinear_arith)
        requires
            amount >= 0,
            0 <= fee <= scale(),
    ;
    lemma_div_round_nonneg(amount * fee, scale());
    assert((amount * fee) * scale() <= (amount * scale()) * scale()) by (nonlinear_arith)
        requires
            amount * fee <= amount * scale(),
    ;
    lemma_div_round_monotone(amount * fee, scale(), amount * scale(), scale());
    lemma_div_round_exact(amount, scale());
}

/// The leverage of a position: a factor of at least one.
#[derive(Clone, Copy, Debug, PartialEq, Eq, Structural, Hash)]
pub struct Leverage {
    /// The factor.
    pub factor: Decimal,
}

impl View for Leverage {
    type V = int;

    open spec fn view(&self) -> int {
        self.factor@
    }
}

impl Leverage {
    /// The factor is at least one.
    pub open spec fn wf(self) -> bool {
        self@ >= scale()
    }

    /// The leverage with the given factor, or `None` for a factor below one.
    pub fn new(factor: Decimal) -> (r: Option<Leverage>)
        ensures
            r.is_some() <==> factor@ >= scale(),
            r.is_some() ==> r.unwrap().factor == factor && r.unwrap().wf(),
    {
        if factor.raw() < SCALE {
            None
        } else {
            Some(Leverage { factor })
        }
    }

    /// The factor.
    pub fn inner(self) -> (r: Decimal)
        ensures
            r == self.factor,
    {
        self.factor
    }
}

/// Raw value, in the collateral currency, of `size` contracts at `price`:
/// size times price for linear futures, size divided by price for inverse ones.
pub open spec fn notional_raw(ft: FuturesType, size: int, price: int) -> int
    recommends
        price > 0,
{
    match ft {
        FuturesType::Linear => mul_raw(size, price),
        FuturesType::Inverse => div_raw(size, price),
    }
}

/// Raw value of the profit of `qty` contracts (negative for a short) that
/// were entered at `entry` and left at `exit`.
pub open spec fn pnl_raw(ft: FuturesType, entry: int, exit: int, qty: int) -> int
    recommends
        entry > 0,
        exit > 0,
{
    match ft {
        FuturesType::Linear => mul_raw(qty, exit - entry),
        FuturesType::Inverse => div_raw(qty, entry) - div_raw(qty, exit),
    }
}

/// Every step of the profit computation is representable.
pub open spec fn pnl_defined(ft: FuturesType, entry: int, exit: int, qty: int) -> bool {
    match ft {
        FuturesType::Linear => in_range(exit - entry) && in_range(mul_raw(qty, exit - entry)),
        FuturesType::Inverse => in_range(div_raw(qty, entry)) && in_range(div_raw(qty, exit))
            && in_range(div_raw(qty, entry) - div_raw(qty, exit)),
    }
}

/// Raw value of the fee on `size` contracts traded at `price`, in the
/// collateral currency: the fee's share of the size, valued at the price.
pub open spec fn fee_raw(ft: FuturesType, size: int, fee: int, price: int) -> int
    recommends
        price > 0,
{
    notional_raw(ft, mul_raw(size, fee), price)
}

/// Every step of the fee computation is representable.
pub open spec fn fee_defined(ft: FuturesType, size: int, fee: int, price: int) -> bool {
    in_range(mul_raw(size, fee)) && in_range(fee_raw(ft, size, fee, price))
}

/// Raw value of the collateral that backs `size` contracts at `price`
/// under the leverage `lev`.
pub open spec fn margin_raw(ft: FuturesType, size: int, price: int, lev: int) -> int
    recommends
        price > 0,
        lev > 0,
{
    div_raw(notional_raw(ft, size, price), lev)
}

/// Every step of the collateral computation is representable.
pub open spec fn margin_defined(ft: FuturesType, size: int, price: int, lev: int) -> bool {
    in_range(notional_raw(ft, size, price)) && in_range(margin_raw(ft, size, price, lev))
}

/// The value of a non-negative size at a positive price is not negative.
pub proof fn lemma_notional_nonneg(ft: FuturesType, size: int, price: int)
    requires
        size >= 0,
        price > 0,
    ensures
        notional_raw(ft, size, price) >= 0,
{
    match ft {
        FuturesType::Linear => {
            assert(size * price >= 0) by (nonlinear_arith)
                requires
                    size >= 0,
                    price > 0,
            ;
            lemma_div_round_nonneg(size * price, scale());
        },
        FuturesType::Inverse => {
            lemma_div_round_nonneg(size * scale(), price);
        },
    }
}

/// The value of no contracts is zero.
pub proof fn lemma_notional_zero(ft: FuturesType, price: int)
    requires
        price > 0,
    ensures
        notional_raw(ft, 0, price) == 0,
{
    assert(0 * price == 0);
    assert(0 * scale() == 0);
    lemma_div_round_exact(0, scale());
    lemma_div_round_exact(0, price);
}

/// Dividing a non-negative amount by a leverage of at least one neither
/// makes it negative nor larger, and keeps the order of two amounts.
pub proof fn lemma_leveraged(x: int, y: int, lev: int)
    requires
        0 <= x <= y,
        lev >= scale(),
    ensures
        0 <= div_raw(x, lev) <= div_raw(y, lev) <= y,
{
    lemma_div_round_nonneg(x * scale(), lev);
    assert(x * scale() * lev <= y * scale() * lev) by (nonlinear_arith)
        requires
            x <= y,
            lev > 0,
    ;
    lemma_div_round_monotone(x * scale(), lev, y * scale(), lev);
    assert((y * scale()) * 1 <= y * lev) by (nonlinear_arith)
        requires
            y >= 0,
            lev >= scale(),
    ;
    lemma_div_round_monotone(y * scale(), lev, y, 1);
    assert(y == y * 1);
    lemma_div_round_exact(y, 1);
}

/// The collateral of a non-negative size is not negative.
pub proof fn lemma_margin_nonneg(ft: FuturesType, size: int, price: int, lev: int)
    requires
        size >= 0,
        price > 0,
        lev >= scale(),
    ensures
        margin_raw(ft, size, price, lev) >= 0,
{
    lemma_notional_nonneg(ft, size, price);
    let n = notional_raw(ft, size, price);
    lemma_leveraged(n, n, lev);
}

/// No contracts need no collateral.
pub proof fn lemma_margin_zero(ft: FuturesType, price: int, lev: int)
    requires
        price > 0,
        lev >= scale(),
    ensures
        margin_raw(ft, 0, price, lev) == 0,
        margin_defined(ft, 0, price, lev),
{
    lemma_notional_zero(ft, price);
    assert(0 * scale() == 0);
    lemma_div_round_exact(0, lev);
}

/// The value, in the collateral currency, of `size` contracts at `price`.
pub fn notional(ft: FuturesType, size: Decimal, price: QuoteCurrency) -> (r: Decimal)
    requires
        price@ > 0,
        in_range(notional_raw(ft, size@, price@)),
    ensures
        r@ == notional_raw(ft, size@, price@),
{
    match ft {
        FuturesType::Linear => size.mul(price.value),
        FuturesType::Inverse => size.div(price.value),
    }
}

/// The profit of `qty` contracts (negative for a short) entered at `entry`
/// and left at `exit`.
pub fn pnl(ft: FuturesType, entry: QuoteCurrency, exit: QuoteCurrency, qty: Decimal) -> (r:
    Decimal)
    requires
        entry@ > 0,
        exit@ > 0,
        pnl_defined(ft, entry@, exit@, qty@),
    ensures
        r@ == pnl_raw(ft, entry@, exit@, qty@),
{
    match ft {
        FuturesType::Linear => qty.mul(exit.value.sub(entry.value)),
        FuturesType::Inverse => qty.div(entry.value).sub(qty.div(exit.value)),
    }
}

/// The fee on `size` contracts traded at `price`, in the collateral currency.
pub fn fee_amount(ft: FuturesType, size: Decimal, fee: Fee, price: QuoteCurrency) -> (r: Decimal)
    requires
        price@ > 0,
        fee_defined(ft, size@, fee@, price@),
    ensures
        r@ == fee_raw(ft, size@, fee@, price@),
{
    notional(ft, size.mul(fee.rate), price)
}

/// The collateral that backs `size` contracts at `price` under `leverage`.
pub fn margin_amount(ft: FuturesType, size: Decimal, price: QuoteCurrency, leverage: Leverage) -> (r:
    Decimal)
    requires
        price@ > 0,
        leverage.wf(),
        margin_defined(ft, size@, price@, leverage@),
    ensures
        r@ == margin_raw(ft, size@, price@, leverage@),
{
    notional(ft, size, price).div(leverage.factor)
}


/// The value of `size` contracts at `price`, or `None` if it is not representable.
pub fn checked_notional(ft: FuturesType, size: Decimal, price: QuoteCurrency) -> (r: Option<
    Decimal,
>)
    requires
        price@ > 0,
    ensures
        r.is_some() <==> in_range(notional_raw(ft, size@, price@)),
        r.is_some() ==> r.unwrap()@ == notional_raw(ft, size@, price@),
{
    match ft {
        FuturesType::Linear => size.checked_mul(price.value),
        FuturesType::Inverse => size.checked_div(price.value),
    }
}

/// The profit of `qty` contracts entered at `entry` and left at `exit`,
/// or `None` if a step of its computation is not representable.
pub fn checked_pnl(ft: FuturesType, entry: QuoteCurrency, exit: QuoteCurrency, qty: Decimal) -> (r:
    Option<Decimal>)
    requires
        entry@ > 0,
        exit@ > 0,
    ensures
        r.is_some() <==> pnl_defined(ft, entry@, exit@, qty@),
        r.is_some() ==> r.unwrap()@ == pnl_raw(ft, entry@, exit@, qty@),
{
    match ft {
        FuturesType::Linear => {
            match exit.value.checked_sub(entry.value) {
                Some(diff) => qty.checked_mul(diff),
                None => None,
            }
        },
        FuturesType::Inverse => {
            match qty.checked_div(entry.value) {
                Some(at_entry) => match qty.checked_div(exit.value) {
                    Some(at_exit) => at_entry.checked_sub(at_exit),
                    None => None,
                },
                None => None,
            }
        },
    }
}

/// The fee on `size` contracts traded at `price`, or `None` if a step of
/// its computation is not representable.
pub fn checked_fee_amount(ft: FuturesType, size: Decimal, fee: Fee, price: QuoteCurrency) -> (r:
    Option<Decimal>)
    requires
        price@ > 0,
    ensures
        r.is_some() <==> fee_defined(ft, size@, fee@, price@),
        r.is_some() ==> r.unwrap()@ == fee_raw(ft, size@, fee@, price@),
{
    match size.checked_mul(fee.rate) {
        Some(share) => checked_notional(ft, share, price),
        None => None,
    }
}

/// The collateral that backs `size` contracts at `price` under
/// `leverage`, or `None` if a step of its computation is not representable.
pub fn checked_margin_amount(
    ft: FuturesType,
    size: Decimal,
    price: QuoteCurrency,
    leverage: Leverage,
) -> (r: Option<Decimal>)
    requires
        price@ > 0,
        leverage.wf(),
    ensures
        r.is_some() <==> margin_defined(ft, size@, price@, leverage@),
        r.is_some() ==> r.unwrap()@ == margin_raw(ft, size@, price@, leverage@),
{
    match checked_notional(ft, size, price) {
        Some(value) => value.checked_div(leverage.factor),
        None => None,
    }
}

} // verus!
