//! Orders as the engine sees them.

use vstd::prelude::*;
use crate::currency::QuoteCurrency;
use crate::decimal::Decimal;
use crate::errors::OrderError;
use crate::side::{OrderStatus, Side};

verus! {

/// An order to buy or sell a number of contracts, at the market or at a limit price.
#[derive(Clone, Copy, Debug, PartialEq, Eq)]
pub struct Order {
    /// The identifier, assigned on submission.
    pub id: u64,
    /// Whether to buy or to sell.
    pub side: Side,
    /// The number of contracts, in the size currency; positive.
    pub size: Decimal,
    /// The limit price; `None` for a market order.
    pub limit_price: Option<QuoteCurrency>,
    /// When the order was submitted, in nanoseconds.
    pub timestamp_ns: i64,
    /// Where the order stands in its life.
    pub status: OrderStatus,
}

impl Order {
    /// The size is positive, and so is the limit price if there is one.
    pub open spec fn wf(self) -> bool {
        &&& self.size@ > 0
        &&& self.limit_price.is_some() ==> self.limit_price.unwrap()@ > 0
    }

    /// The order has a limit price.
    pub open spec fn is_limit(self) -> bool {
        self.limit_price.is_some()
    }

    /// The raw limit price of a limit order.
    pub open spec fn price(self) -> int
        recommends
            self.is_limit(),
    {
        self.limit_price.unwrap()@
    }

    /// A pending market order; refused unless the size is positive.
    pub fn market(side: Side, size: Decimal) -> (r: Result<Order, OrderError>)
        ensures
            size@ > 0 ==> r == Ok::<Order, OrderError>(
                (Order {
                    id: 0,
                    side,
                    size,
                    limit_price: None,
                    timestamp_ns: 0,
                    status: OrderStatus::Pending,
                }),
            ),
            size@ <= 0 ==> r == Err::<Order, OrderError>(OrderError::InvalidOrderQuantity),
    {
        if !size.is_positive() {
            return Err(OrderError::InvalidOrderQuantity);
        }
        Ok(
            Order {
                id: 0,
                side,
                size,
                limit_price: None,
                timestamp_ns: 0,
                status: OrderStatus::Pending,
            },
        )
    }

    /// A pending limit order; refused unless price and size are positive.
    pub fn limit(side: Side, limit_price: QuoteCurrency, size: Decimal) -> (r: Result<
        Order,
        OrderError,
    >)
        ensures
            limit_price@ <= 0 ==> r == Err::<Order, OrderError>(OrderError::InvalidLimitPrice),
            limit_price@ > 0 && size@ <= 0 ==> r == Err::<Order, OrderError>(
                OrderError::InvalidOrderQuantity,
            ),
            limit_price@ > 0 && size@ > 0 ==> r == Ok::<Order, OrderError>(
                (Order {
                    id: 0,
                    side,
                    size,
                    limit_price: Some(limit_price),
                    timestamp_ns: 0,
                    status: OrderStatus::Pending,
                }),
            ),
    {
        if !limit_price.inner().is_positive() {
            return Err(OrderError::InvalidLimitPrice);
        }
        if !size.is_positive() {
            return Err(OrderError::InvalidOrderQuantity);
        }
        Ok(
            Order {
                id: 0,
                side,
                size,
                limit_price: Some(limit_price),
                timestamp_ns: 0,
                status: OrderStatus::Pending,
            },
        )
    }

    /// The identifier.
    pub fn id(&self) -> (r: u64)
        ensures
            r == self.id,
    {
        self.id
    }

    /// Whether the order buys or sells.
    pub fn side(&self) -> (r: Side)
        ensures
            r == self.side,
    {
        self.side
    }

    /// The number of contracts.
    pub fn size(&self) -> (r: Decimal)
        ensures
            r == self.size,
    {
        self.size
    }

    /// The limit price; `None` for a market order.
    pub fn limit_price(&self) -> (r: Option<QuoteCurrency>)
        ensures
            r == self.limit_price,
    {
        self.limit_price
    }

    /// When the order was submitted, in nanoseconds.
    pub fn timestamp_ns(&self) -> (r: i64)
        ensures
            r == self.timestamp_ns,
    {
        self.timestamp_ns
    }

    /// Where the order stands in its life.
    pub fn status(&self) -> (r: OrderStatus)
        ensures
            r == self.status,
    {
        self.status
    }

    /// Gives the order the identifier `id`.
    pub fn set_id(&mut self, id: u64)
        ensures
            *final(self) == (Order { id, ..*old(self) }),
    {
        self.id = id;
    }

    /// Stamps the order with the time `timestamp_ns`.
    pub fn set_timestamp_ns(&mut self, timestamp_ns: i64)
        ensures
            *final(self) == (Order { timestamp_ns, ..*old(self) }),
    {
        self.timestamp_ns = timestamp_ns;
    }

    /// Marks the order as filled.
    pub fn mark_filled(&mut self)
        ensures
            *final(self) == (Order { status: OrderStatus::Filled, ..*old(self) }),
    {
        self.status = OrderStatus::Filled;
    }

    /// Marks the order as cancelled.
    pub fn mark_cancelled(&mut self)
        ensures
            *final(self) == (Order { status: OrderStatus::Cancelled, ..*old(self) }),
    {
        self.status = OrderStatus::Cancelled;
    }
}

} // verus!
