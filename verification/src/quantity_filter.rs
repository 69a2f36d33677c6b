//! The quantity rules of a symbol, applied to the size of every order.

use vstd::prelude::*;
use crate::decimal::{Decimal, rem_raw, scale};
use crate::errors::OrderError;
use crate::order::Order;

verus! {

/// The quantity rules of a symbol.
#[derive(Clone, Copy, Debug, PartialEq, Eq)]
pub struct QuantityFilter {
    /// The smallest size allowed; zero switches the rule off.
    pub min_quantity: Decimal,
    /// The largest size allowed; zero switches the rule off.
    pub max_quantity: Decimal,
    /// The step between two valid sizes; positive.
    pub step_size: Decimal,
}

/// The size is within the enabled bounds and a whole number of steps.
pub open spec fn quantity_ok(f: QuantityFilter, size: int) -> bool {
    &&& !(size < f.min_quantity@ && f.min_quantity@ != 0)
    &&& !(size > f.max_quantity@ && f.max_quantity@ != 0)
    &&& rem_raw(size, f.step_size@) == 0
}

impl QuantityFilter {
    /// The step size is positive and no bound is negative.
    pub open spec fn wf(self) -> bool {
        &&& self.step_size@ > 0
        &&& self.min_quantity@ >= 0
        &&& self.max_quantity@ >= 0
    }

    /// No bounds, a step size of one.
    pub fn default() -> (r: QuantityFilter)
        ensures
            r.wf(),
            r.min_quantity@ == 0,
            r.max_quantity@ == 0,
            r.step_size@ == scale(),
    {
        QuantityFilter {
            min_quantity: Decimal::zero(),
            max_quantity: Decimal::zero(),
            step_size: Decimal::one(),
        }
    }

    /// Checks the size of an order against the rules.
    pub fn validate_order(&self, order: &Order) -> (r: Result<(), OrderError>)
        requires
            self.wf(),
        ensures
            quantity_ok(*self, order.size@) ==> r == Ok::<(), OrderError>(()),
            !quantity_ok(*self, order.size@) ==> r == Err::<(), OrderError>(
                OrderError::InvalidOrderQuantity,
            ),
    {
        let size = order.size();
        if size.lt(self.min_quantity) && !self.min_quantity.is_zero() {
            return Err(OrderError::InvalidOrderQuantity);
        }
        if size.gt(self.max_quantity) && !self.max_quantity.is_zero() {
            return Err(OrderError::InvalidOrderQuantity);
        }
        if !size.rem(self.step_size).is_zero() {
            return Err(OrderError::InvalidOrderQuantity);
        }
        Ok(())
    }
}

} // verus!
