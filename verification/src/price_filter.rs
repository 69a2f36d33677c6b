//! The price rules of a symbol, applied to limit orders and to market updates.

use vstd::prelude::*;
use crate::currency::QuoteCurrency;
use crate::decimal::{Decimal, mul_raw, rem_raw, scale, lemma_div_round_nonneg};
use crate::errors::{Error, OrderError};
use crate::market_update::MarketUpdate;
use crate::order::Order;

verus! {

/// The price rules of a symbol.
#[derive(Clone, Copy, Debug, PartialEq, Eq)]
pub struct PriceFilter {
    /// The smallest price allowed; zero switches the rule off.
    pub min_price: QuoteCurrency,
    /// The largest price allowed; zero switches the rule off.
    pub max_price: QuoteCurrency,
    /// The step between two valid prices; positive.
    pub tick_size: QuoteCurrency,
    /// A limit price may be at most the mark price times this factor; zero
    /// switches the rule off.
    pub multiplier_up: Decimal,
    /// A limit price may be at least the mark price times this factor; zero
    /// switches the rule off.
    pub multiplier_down: Decimal,
}

/// The price is not below an enabled minimum.
pub open spec fn min_price_ok(min_price: int, price: int) -> bool {
    !(price < min_price && min_price != 0)
}

/// The price is not above an enabled maximum.
pub open spec fn max_price_ok(max_price: int, price: int) -> bool {
    !(price > max_price && max_price != 0)
}

/// The price is a whole number of steps.
pub open spec fn step_size_ok(step_size: int, price: int) -> bool
    recommends
        step_size != 0,
{
    rem_raw(price, step_size) == 0
}

/// The verdict of the filter on a limit price, given the mark price.
pub open spec fn limit_price_verdict(f: PriceFilter, price: int, mark: int) -> Result<
    (),
    OrderError,
> {
    if !min_price_ok(f.min_price@, price) {
        Err(OrderError::LimitPriceBelowMin)
    } else if !max_price_ok(f.max_price@, price) {
        Err(OrderError::LimitPriceAboveMax)
    } else if !step_size_ok(f.tick_size@, price - f.min_price@) {
        Err(OrderError::InvalidOrderPriceStepSize)
    } else if price > mul_raw(mark, f.multiplier_up@) && f.multiplier_up@ != 0 {
        Err(OrderError::LimitPriceAboveMultiple)
    } else if price < mul_raw(mark, f.multiplier_down@) && f.multiplier_down@ != 0 {
        Err(OrderError::LimitPriceBelowMultiple)
    } else {
        Ok(())
    }
}

/// The verdict of the filter on two prices that have to keep a spread.
pub open spec fn pair_verdict(f: PriceFilter, bid: int, ask: int) -> Result<(), Error> {
    if !min_price_ok(f.min_price@, bid) || !min_price_ok(f.min_price@, ask) {
        Err(Error::MarketUpdatePriceTooLow)
    } else if !max_price_ok(f.max_price@, bid) || !max_price_ok(f.max_price@, ask) {
        Err(Error::MarketUpdatePriceTooHigh)
    } else if !step_size_ok(f.tick_size@, bid - f.min_price@) || !step_size_ok(f.tick_size@, ask - f.min_price@) {
        Err(Error::MarketUpdatePriceStepSize)
    } else if bid >= ask {
        Err(Error::InvalidMarketUpdateBidAskSpread)
    } else {
        Ok(())
    }
}

/// The verdict of the filter on a market update: every price is checked
/// against the minimum, then against the maximum, then its distance from
/// the minimum against the tick size, and at last the bid has to be below
/// the ask and the low below the high.
pub open spec fn market_update_verdict(f: PriceFilter, u: MarketUpdate) -> Result<(), Error> {
    match u {
        MarketUpdate::Bba { bid, ask } => pair_verdict(f, bid@, ask@),
        MarketUpdate::Trade { price, quantity, side } => {
            if !min_price_ok(f.min_price@, price@) {
                Err(Error::MarketUpdatePriceTooLow)
            } else if !max_price_ok(f.max_price@, price@) {
                Err(Error::MarketUpdatePriceTooHigh)
            } else if !step_size_ok(f.tick_size@, price@ - f.min_price@) {
                Err(Error::MarketUpdatePriceStepSize)
            } else {
                Ok(())
            }
        },
        MarketUpdate::Candle { bid, ask, low, high } => {
            if !min_price_ok(f.min_price@, bid@) || !min_price_ok(f.min_price@, ask@)
                || !min_price_ok(f.min_price@, low@) || !min_price_ok(f.min_price@, high@) {
                Err(Error::MarketUpdatePriceTooLow)
            } else if !max_price_ok(f.max_price@, bid@) || !max_price_ok(f.max_price@, ask@)
                || !max_price_ok(f.max_price@, low@) || !max_price_ok(f.max_price@, high@) {
                Err(Error::MarketUpdatePriceTooHigh)
            } else if !step_size_ok(f.tick_size@, bid@ - f.min_price@) || !step_size_ok(f.tick_size@, ask@ - f.min_price@)
                || !step_size_ok(f.tick_size@, low@ - f.min_price@) || !step_size_ok(f.tick_size@, high@ - f.min_price@) {
                Err(Error::MarketUpdatePriceStepSize)
            } else if bid@ >= ask@ || low@ >= high@ {
                Err(Error::InvalidMarketUpdateBidAskSpread)
            } else {
                Ok(())
            }
        },
    }
}

/// Refuses a bid that is not below the ask.
pub fn enforce_bid_ask_spread(bid: QuoteCurrency, ask: QuoteCurrency) -> (r: Result<(), Error>)
    ensures
        bid@ < ask@ ==> r == Ok::<(), Error>(()),
        bid@ >= ask@ ==> r == Err::<(), Error>(Error::InvalidMarketUpdateBidAskSpread),
{
    if bid.inner().ge(ask.inner()) {
        return Err(Error::InvalidMarketUpdateBidAskSpread);
    }
    Ok(())
}

/// Refuses a price below an enabled minimum.
pub fn enforce_min_price(min_price: QuoteCurrency, price: QuoteCurrency) -> (r: Result<(), Error>)
    ensures
        min_price_ok(min_price@, price@) ==> r == Ok::<(), Error>(()),
        !min_price_ok(min_price@, price@) ==> r == Err::<(), Error>(
            Error::MarketUpdatePriceTooLow,
        ),
{
    if price.inner().lt(min_price.inner()) && !min_price.is_zero() {
        return Err(Error::MarketUpdatePriceTooLow);
    }
    Ok(())
}

/// Refuses a price above an enabled maximum.
pub fn enforce_max_price(max_price: QuoteCurrency, price: QuoteCurrency) -> (r: Result<(), Error>)
    ensures
        max_price_ok(max_price@, price@) ==> r == Ok::<(), Error>(()),
        !max_price_ok(max_price@, price@) ==> r == Err::<(), Error>(
            Error::MarketUpdatePriceTooHigh,
        ),
{
    if price.inner().gt(max_price.inner()) && !max_price.is_zero() {
        return Err(Error::MarketUpdatePriceTooHigh);
    }
    Ok(())
}

/// Refuses a price that is not a whole number of steps.
pub fn enforce_step_size(step_size: QuoteCurrency, price: QuoteCurrency) -> (r: Result<(), Error>)
    requires
        step_size@ != 0,
    ensures
        step_size_ok(step_size@, price@) ==> r == Ok::<(), Error>(()),
        !step_size_ok(step_size@, price@) ==> r == Err::<(), Error>(
            Error::MarketUpdatePriceStepSize,
        ),
{
    if !price.inner().rem(step_size.inner()).is_zero() {
        return Err(Error::MarketUpdatePriceStepSize);
    }
    Ok(())
}

impl PriceFilter {
    /// The tick size is positive and no bound or factor is negative.
    pub open spec fn wf(self) -> bool {
        &&& self.tick_size@ > 0
        &&& self.min_price@ >= 0
        &&& self.max_price@ >= 0
        &&& self.multiplier_up@ >= 0
        &&& self.multiplier_down@ >= 0
    }

    /// No bounds, a tick size of one, limit prices up to twice the mark price.
    pub fn default() -> (r: PriceFilter)
        ensures
            r.wf(),
            r.min_price@ == 0,
            r.max_price@ == 0,
            r.tick_size@ == scale(),
            r.multiplier_up@ == 2 * scale(),
            r.multiplier_down@ == 0,
    {
        PriceFilter {
            min_price: QuoteCurrency::new_zero(),
            max_price: QuoteCurrency::new_zero(),
            tick_size: QuoteCurrency::new(Decimal::one()),
            multiplier_up: Decimal::from_raw(200_000_000),
            multiplier_down: Decimal::zero(),
        }
    }

    /// Checks the limit price of an order against the rules, given the mark
    /// price. A market order always passes.
    pub fn validate_order(&self, order: &Order, mark_price: QuoteCurrency) -> (r: Result<
        (),
        OrderError,
    >)
        requires
            self.wf(),
            order.wf(),
            mark_price@ >= 0,
        ensures
            !order.is_limit() ==> r == Ok::<(), OrderError>(()),
            order.is_limit() ==> r == limit_price_verdict(*self, order.price(), mark_price@),
    {
        match order.limit_price() {
            Some(limit_price) => {
                let price = limit_price.inner();
                if price.lt(self.min_price.inner()) && !self.min_price.is_zero() {
                    return Err(OrderError::LimitPriceBelowMin);
                }
                if price.gt(self.max_price.inner()) && !self.max_price.is_zero() {
                    return Err(OrderError::LimitPriceAboveMax);
                }
                if !price.sub(self.min_price.inner()).rem(self.tick_size.inner()).is_zero() {
                    return Err(OrderError::InvalidOrderPriceStepSize);
                }
                proof {
                    lemma_mul_raw_nonneg(mark_price@, self.multiplier_up@);
                    lemma_mul_raw_nonneg(mark_price@, self.multiplier_down@);
                }
                // a bound that is too large to be represented is above every price
                let above = match mark_price.inner().checked_mul(self.multiplier_up) {
                    Some(bound) => price.gt(bound),
                    None => false,
                };
                if above && !self.multiplier_up.is_zero() {
                    return Err(OrderError::LimitPriceAboveMultiple);
                }
                let below = match mark_price.inner().checked_mul(self.multiplier_down) {
                    Some(bound) => price.lt(bound),
                    None => true,
                };
                if below && !self.multiplier_down.is_zero() {
                    return Err(OrderError::LimitPriceBelowMultiple);
                }
                Ok(())
            },
            None => Ok(()),
        }
    }

    /// How far a price that is not below the minimum lies above it.
    pub fn above_minimum(&self, price: QuoteCurrency) -> (r: QuoteCurrency)
        requires
            self.wf(),
            min_price_ok(self.min_price@, price@),
        ensures
            r@ == price@ - self.min_price@,
    {
        if self.min_price.is_zero() {
            price
        } else {
            price.sub(self.min_price)
        }
    }

    /// Checks every price of a market update against the rules.
    pub fn validate_market_update(&self, market_update: &MarketUpdate) -> (r: Result<(), Error>)
        requires
            self.wf(),
        ensures
            r == market_update_verdict(*self, *market_update),
    {
        match *market_update {
            MarketUpdate::Bba { bid, ask } => {
                enforce_min_price(self.min_price, bid)?;
                enforce_min_price(self.min_price, ask)?;
                enforce_max_price(self.max_price, bid)?;
                enforce_max_price(self.max_price, ask)?;
                enforce_step_size(self.tick_size, self.above_minimum(bid))?;
                enforce_step_size(self.tick_size, self.above_minimum(ask))?;
                enforce_bid_ask_spread(bid, ask)?;
            },
            MarketUpdate::Trade { price, quantity, side } => {
                enforce_min_price(self.min_price, price)?;
                enforce_max_price(self.max_price, price)?;
                enforce_step_size(self.tick_size, self.above_minimum(price))?;
            },
            MarketUpdate::Candle { bid, ask, low, high } => {
                enforce_min_price(self.min_price, bid)?;
                enforce_min_price(self.min_price, ask)?;
                enforce_min_price(self.min_price, low)?;
                enforce_min_price(self.min_price, high)?;
                enforce_max_price(self.max_price, bid)?;
                enforce_max_price(self.max_price, ask)?;
                enforce_max_price(self.max_price, low)?;
                enforce_max_price(self.max_price, high)?;
                enforce_step_size(self.tick_size, self.above_minimum(bid))?;
                enforce_step_size(self.tick_size, self.above_minimum(ask))?;
                enforce_step_size(self.tick_size, self.above_minimum(low))?;
                enforce_step_size(self.tick_size, self.above_minimum(high))?;
                enforce_bid_ask_spread(bid, ask)?;
                enforce_bid_ask_spread(low, high)?;
            },
        }
        Ok(())
    }
}

/// The product of two non-negative numbers is not negative.
pub proof fn lemma_mul_raw_nonneg(a: int, b: int)
    requires
        a >= 0,
        b >= 0,
    ensures
        mul_raw(a, b) >= 0,
{
    assert(a * b >= 0) by (nonlinear_arith)
        requires
            a >= 0,
            b >= 0,
    ;
    lemma_div_round_nonneg(a * b, scale());
}

} // verus!
