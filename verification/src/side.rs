//! Small enumerations shared by the whole engine.

use vstd::prelude::*;

verus! {

/// The direction of an order or trade.
#[derive(Clone, Copy, Debug, PartialEq, Eq, Structural, Hash)]
pub enum Side {
    /// Acquire the contract.
    Buy,
    /// Give the contract away.
    Sell,
}

impl Side {
    /// The opposite direction.
    pub fn inverted(self) -> (r: Side)
        ensures
            r == match self {
                Side::Buy => Side::Sell,
                Side::Sell => Side::Buy,
            },
    {
        match self {
            Side::Buy => Side::Sell,
            Side::Sell => Side::Buy,
        }
    }
}

/// The contract flavour, which fixes the currency of the collateral.
#[derive(Clone, Copy, Debug, PartialEq, Eq, Structural, Hash)]
pub enum FuturesType {
    /// Collateral in quote currency, size in base currency, payoff linear in the price.
    Linear,
    /// Collateral in base currency, size in quote currency, payoff linear in `1 / price`.
    Inverse,
}

/// Where an order stands in its life.
#[derive(Clone, Copy, Debug, PartialEq, Eq, Structural, Hash)]
pub enum OrderStatus {
    /// Submitted and neither filled nor cancelled.
    Pending,
    /// Executed in full.
    Filled,
    /// Withdrawn before it was executed.
    Cancelled,
}

} // verus!
