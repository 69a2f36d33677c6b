//! What is known of the market: the best prices, the extremes of the last
//! period, the time and the number of updates seen.

use vstd::prelude::*;
use crate::currency::QuoteCurrency;
use crate::decimal::{Decimal, div_round, div_round_exec, lemma_div_round_monotone, lemma_div_round_exact};
use crate::errors::Error;
use crate::market_update::MarketUpdate;
use crate::price_filter::{PriceFilter, market_update_verdict};

verus! {

/// The state of the market.
#[derive(Clone, Copy, Debug)]
pub struct MarketState {
    /// The rules that every update has to meet.
    pub price_filter: PriceFilter,
    /// The best bid.
    pub bid: QuoteCurrency,
    /// The best ask.
    pub ask: QuoteCurrency,
    /// The highest price of the last period.
    pub high: QuoteCurrency,
    /// The lowest price of the last period.
    pub low: QuoteCurrency,
    /// The time of the last update, in nanoseconds.
    pub current_ts_ns: i64,
    /// The number of updates that were accepted.
    pub step: u64,
}

/// The market state after an update that was accepted at the time
/// `timestamp_ns`: a change of the best prices also sets the extremes to
/// them, a candle sets all four prices, a trade leaves the prices alone.
pub open spec fn updated(s: MarketState, timestamp_ns: u64, u: MarketUpdate) -> MarketState {
    match u {
        MarketUpdate::Bba { bid, ask } => MarketState {
            bid,
            ask,
            high: ask,
            low: bid,
            current_ts_ns: timestamp_ns as i64,
            step: (s.step + 1) as u64,
            ..s
        },
        MarketUpdate::Trade { price, quantity, side } => MarketState {
            current_ts_ns: timestamp_ns as i64,
            step: (s.step + 1) as u64,
            ..s
        },
        MarketUpdate::Candle { bid, ask, low, high } => MarketState {
            bid,
            ask,
            high,
            low,
            current_ts_ns: timestamp_ns as i64,
            step: (s.step + 1) as u64,
            ..s
        },
    }
}

impl MarketState {
    /// Raw value of the mean of the best bid and ask, rounded half to even.
    pub open spec fn mid_price_raw(self) -> int {
        div_round(self.bid@ + self.ask@, 2)
    }

    /// The market has prices at which orders can be valued: the best bid
    /// is positive.
    pub open spec fn priced(self) -> bool {
        self.bid@ > 0
    }

    /// The filter is valid, the bid is not above the ask, and the low is
    /// not above the high.
    pub open spec fn wf(self) -> bool {
        &&& self.price_filter.wf()
        &&& self.bid@ <= self.ask@
        &&& self.low@ <= self.high@
    }

    /// A market of which nothing is known yet.
    pub fn new(price_filter: PriceFilter) -> (r: MarketState)
        requires
            price_filter.wf(),
        ensures
            r.wf(),
            !r.priced(),
            r.price_filter == price_filter,
            r.bid@ == 0,
            r.ask@ == 0,
            r.high@ == 0,
            r.low@ == 0,
            r.current_ts_ns == 0,
            r.step == 0,
    {
        MarketState {
            price_filter,
            bid: QuoteCurrency::new_zero(),
            ask: QuoteCurrency::new_zero(),
            high: QuoteCurrency::new_zero(),
            low: QuoteCurrency::new_zero(),
            current_ts_ns: 0,
            step: 0,
        }
    }

    /// Takes an update in. An update that the price filter refuses
    /// changes nothing; any other is committed.
    pub fn update_state(&mut self, timestamp_ns: u64, market_update: &MarketUpdate) -> (r: Result<
        (),
        Error,
    >)
        requires
            old(self).wf(),
            old(self).step < u64::MAX,
        ensures
            r == market_update_verdict(old(self).price_filter, *market_update),
            r.is_err() ==> *final(self) == *old(self),
            r.is_ok() ==> *final(self) == updated(*old(self), timestamp_ns, *market_update),
            final(self).wf(),
    {
        self.price_filter.validate_market_update(market_update)?;
        match *market_update {
            MarketUpdate::Bba { bid, ask } => {
                self.bid = bid;
                self.ask = ask;
                self.high = ask;
                self.low = bid;
            },
            MarketUpdate::Trade { price, quantity, side } => {},
            MarketUpdate::Candle { bid, ask, low, high } => {
                self.bid = bid;
                self.ask = ask;
                self.high = high;
                self.low = low;
            },
        }
        self.current_ts_ns = timestamp_ns as i64;
        self.step = self.step + 1;
        Ok(())
    }

    /// The mean of the best bid and ask, rounded half to even.
    pub fn mid_price(&self) -> (r: QuoteCurrency)
        requires
            self.wf(),
        ensures
            r@ == self.mid_price_raw(),
            self.bid@ <= r@ <= self.ask@,
    {
        let sum: i128 = self.bid.inner().raw() as i128 + self.ask.inner().raw() as i128;
        let mid: i128 = div_round_exec(sum, 2);
        proof {
            let b = self.bid@;
            let a = self.ask@;
            lemma_div_round_monotone(b * 2, 2, b + a, 2);
            lemma_div_round_monotone(b + a, 2, a * 2, 2);
            lemma_div_round_exact(b, 2);
            lemma_div_round_exact(a, 2);
        }
        QuoteCurrency::new(Decimal::from_raw(mid as i64))
    }

    /// The time of the last update, in nanoseconds.
    pub fn current_timestamp_ns(&self) -> (r: i64)
        ensures
            r == self.current_ts_ns,
    {
        self.current_ts_ns
    }

    /// The best bid.
    pub fn bid(&self) -> (r: QuoteCurrency)
        ensures
            r == self.bid,
    {
        self.bid
    }

    /// The best ask.
    pub fn ask(&self) -> (r: QuoteCurrency)
        ensures
            r == self.ask,
    {
        self.ask
    }

    /// The highest price of the last period.
    pub fn high(&self) -> (r: QuoteCurrency)
        ensures
            r == self.high,
    {
        self.high
    }

    /// The lowest price of the last period.
    pub fn low(&self) -> (r: QuoteCurrency)
        ensures
            r == self.low,
    {
        self.low
    }

    /// The number of updates that were accepted.
    pub fn step(&self) -> (r: u64)
        ensures
            r == self.step,
    {
        self.step
    }
}

} // verus!
