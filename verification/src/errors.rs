//! The error values of the engine.

use vstd::prelude::*;

verus! {

/// Why an order was not admitted.
#[derive(Clone, Copy, Debug, PartialEq, Eq, Structural, Hash)]
pub enum OrderError {
    /// The limit price is below the smallest price of the filter.
    LimitPriceBelowMin,
    /// The limit price is above the largest price of the filter.
    LimitPriceAboveMax,
    /// The limit price is not a whole number of ticks away from the smallest price.
    InvalidOrderPriceStepSize,
    /// The limit price is above the mark price times the upper multiplier.
    LimitPriceAboveMultiple,
    /// The limit price is below the mark price times the lower multiplier.
    LimitPriceBelowMultiple,
    /// The limit price is not positive, or it would cross the book.
    InvalidLimitPrice,
    /// The size is not positive, out of bounds or not a whole number of steps.
    InvalidOrderQuantity,
    /// The account cannot cover the order.
    NotEnoughAvailableBalance,
    /// The account already has as many resting orders as it may.
    MaxActiveOrders,
}

/// Why a market update or a position change was refused.
#[derive(Clone, Copy, Debug, PartialEq, Eq, Structural, Hash)]
pub enum Error {
    /// The bid is not below the ask, or the low is not below the high.
    InvalidMarketUpdateBidAskSpread,
    /// A price is below the smallest price of the filter.
    MarketUpdatePriceTooLow,
    /// A price is above the largest price of the filter.
    MarketUpdatePriceTooHigh,
    /// A price is not a whole number of ticks.
    MarketUpdatePriceStepSize,
    /// A price is not positive.
    InvalidPrice,
}

impl OrderError {
    /// The stable name of the error.
    pub fn name(&self) -> (r: &'static str)
        ensures
            r@ == match *self {
                OrderError::LimitPriceBelowMin => "LimitPriceBelowMin"@,
                OrderError::LimitPriceAboveMax => "LimitPriceAboveMax"@,
                OrderError::InvalidOrderPriceStepSize => "InvalidOrderPriceStepSize"@,
                OrderError::LimitPriceAboveMultiple => "LimitPriceAboveMultiple"@,
                OrderError::LimitPriceBelowMultiple => "LimitPriceBelowMultiple"@,
                OrderError::InvalidLimitPrice => "InvalidLimitPrice"@,
                OrderError::InvalidOrderQuantity => "InvalidOrderQuantity"@,
                OrderError::NotEnoughAvailableBalance => "NotEnoughAvailableBalance"@,
                OrderError::MaxActiveOrders => "MaxActiveOrders"@,
            },
    {
        match self {
            OrderError::LimitPriceBelowMin => "LimitPriceBelowMin",
            OrderError::LimitPriceAboveMax => "LimitPriceAboveMax",
            OrderError::InvalidOrderPriceStepSize => "InvalidOrderPriceStepSize",
            OrderError::LimitPriceAboveMultiple => "LimitPriceAboveMultiple",
            OrderError::LimitPriceBelowMultiple => "LimitPriceBelowMultiple",
            OrderError::InvalidLimitPrice => "InvalidLimitPrice",
            OrderError::InvalidOrderQuantity => "InvalidOrderQuantity",
            OrderError::NotEnoughAvailableBalance => "NotEnoughAvailableBalance",
            OrderError::MaxActiveOrders => "MaxActiveOrders",
        }
    }
}

impl Error {
    /// The stable name of the error.
    pub fn name(&self) -> (r: &'static str)
        ensures
            r@ == match *self {
                Error::InvalidMarketUpdateBidAskSpread => "InvalidMarketUpdateBidAskSpread"@,
                Error::MarketUpdatePriceTooLow => "MarketUpdatePriceTooLow"@,
                Error::MarketUpdatePriceTooHigh => "MarketUpdatePriceTooHigh"@,
                Error::MarketUpdatePriceStepSize => "MarketUpdatePriceStepSize"@,
                Error::InvalidPrice => "InvalidPrice"@,
            },
    {
        match self {
            Error::InvalidMarketUpdateBidAskSpread => "InvalidMarketUpdateBidAskSpread",
            Error::MarketUpdatePriceTooLow => "MarketUpdatePriceTooLow",
            Error::MarketUpdatePriceTooHigh => "MarketUpdatePriceTooHigh",
            Error::MarketUpdatePriceStepSize => "MarketUpdatePriceStepSize",
            Error::InvalidPrice => "InvalidPrice",
        }
    }
}

} // verus!
