//! The updates that drive the market state.

use vstd::prelude::*;
use crate::currency::QuoteCurrency;
use crate::decimal::Decimal;
use crate::side::Side;

verus! {

/// One piece of news from the market.
#[derive(Clone, Copy, Debug, PartialEq, Eq, Structural)]
pub enum MarketUpdate {
    /// The best bid and ask have changed.
    Bba {
        /// The new best bid.
        bid: QuoteCurrency,
        /// The new best ask.
        ask: QuoteCurrency,
    },
    /// A trade has taken place.
    Trade {
        /// The price of the trade.
        price: QuoteCurrency,
        /// The number of contracts traded.
        quantity: Decimal,
        /// The side of the taker.
        side: Side,
    },
    /// A period has ended.
    Candle {
        /// The best bid at the end of the period.
        bid: QuoteCurrency,
        /// The best ask at the end of the period.
        ask: QuoteCurrency,
        /// The lowest price of the period.
        low: QuoteCurrency,
        /// The highest price of the period.
        high: QuoteCurrency,
    },
}

impl MarketUpdate {
    /// A change of the best bid and ask.
    pub fn bba(bid: QuoteCurrency, ask: QuoteCurrency) -> (r: MarketUpdate)
        ensures
            r == (MarketUpdate::Bba { bid, ask }),
    {
        MarketUpdate::Bba { bid, ask }
    }

    /// A trade.
    pub fn trade(price: QuoteCurrency, quantity: Decimal, side: Side) -> (r: MarketUpdate)
        ensures
            r == (MarketUpdate::Trade { price, quantity, side }),
    {
        MarketUpdate::Trade { price, quantity, side }
    }

    /// The end of a period.
    pub fn candle(bid: QuoteCurrency, ask: QuoteCurrency, low: QuoteCurrency, high: QuoteCurrency)
        -> (r: MarketUpdate)
        ensures
            r == (MarketUpdate::Candle { bid, ask, low, high }),
    {
        MarketUpdate::Candle { bid, ask, low, high }
    }
}

} // verus!
