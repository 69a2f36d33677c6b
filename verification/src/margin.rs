//! The margin ledger of an account: the wallet and the collateral tied to
//! the position and to the resting orders.

use vstd::prelude::*;
use crate::decimal::{Decimal, in_range};

verus! {

/// The balances of an account, all in the collateral currency.
#[derive(Clone, Copy, Debug, PartialEq, Eq)]
pub struct Margin {
    /// Everything the account owns.
    pub wallet_balance: Decimal,
    /// The part tied to the position.
    pub position_margin: Decimal,
    /// The part tied to the resting limit orders.
    pub order_margin: Decimal,
}

impl Margin {
    /// Raw value of the part of the wallet that is tied to nothing.
    pub open spec fn available_raw(self) -> int {
        self.wallet_balance@ - self.position_margin@ - self.order_margin@
    }

    /// A ledger that holds `wallet_balance` and ties none of it.
    pub fn new(wallet_balance: Decimal) -> (r: Margin)
        ensures
            r.wallet_balance == wallet_balance,
            r.position_margin@ == 0,
            r.order_margin@ == 0,
    {
        Margin {
            wallet_balance,
            position_margin: Decimal::zero(),
            order_margin: Decimal::zero(),
        }
    }

    /// Everything the account owns.
    pub fn wallet_balance(&self) -> (r: Decimal)
        ensures
            r == self.wallet_balance,
    {
        self.wallet_balance
    }

    /// The part of the wallet tied to the position.
    pub fn position_margin(&self) -> (r: Decimal)
        ensures
            r == self.position_margin,
    {
        self.position_margin
    }

    /// The part of the wallet tied to the resting limit orders.
    pub fn order_margin(&self) -> (r: Decimal)
        ensures
            r == self.order_margin,
    {
        self.order_margin
    }

    /// The part of the wallet that is tied to nothing: together with the
    /// position margin and the order margin it makes up the wallet.
    pub fn available_balance(&self) -> (r: Decimal)
        requires
            in_range(self.available_raw()),
        ensures
            r@ == self.available_raw(),
            r@ + self.position_margin@ + self.order_margin@ == self.wallet_balance@,
    {
        let wide: i128 = self.wallet_balance.raw() as i128 - self.position_margin.raw() as i128
            - self.order_margin.raw() as i128;
        Decimal::from_raw(wide as i64)
    }
}

} // verus!
