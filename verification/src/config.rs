//! The settings of an exchange.

use vstd::prelude::*;
use crate::currency::{Fee, Leverage};
use crate::decimal::Decimal;
use crate::price_filter::PriceFilter;
use crate::quantity_filter::QuantityFilter;
use crate::side::FuturesType;

verus! {

/// The settings of an exchange.
#[derive(Clone, Copy, Debug)]
pub struct Config {
    /// The fee rate for fills of resting orders.
    pub fee_maker: Fee,
    /// The fee rate for market orders.
    pub fee_taker: Fee,
    /// What the account owns at the start; positive.
    pub starting_wallet_balance: Decimal,
    /// The leverage of the position.
    pub leverage: Leverage,
    /// The contract flavour.
    pub futures_type: FuturesType,
    /// How many limit orders may rest at once; positive.
    pub max_active_limit_orders: usize,
    /// The price rules.
    pub price_filter: PriceFilter,
    /// The quantity rules.
    pub quantity_filter: QuantityFilter,
}

/// The settings are usable: rates, leverage and filters are valid, the
/// starting balance is positive, and at least one limit order may rest.
pub open spec fn settings_valid(
    fee_maker: Fee,
    fee_taker: Fee,
    starting_wallet_balance: Decimal,
    leverage: Leverage,
    max_active_limit_orders: usize,
    price_filter: PriceFilter,
    quantity_filter: QuantityFilter,
) -> bool {
    &&& fee_maker.wf()
    &&& fee_taker.wf()
    &&& starting_wallet_balance@ > 0
    &&& leverage.wf()
    &&& max_active_limit_orders > 0
    &&& price_filter.wf()
    &&& quantity_filter.wf()
}

impl Config {
    /// The settings are usable.
    pub open spec fn wf(self) -> bool {
        settings_valid(
            self.fee_maker,
            self.fee_taker,
            self.starting_wallet_balance,
            self.leverage,
            self.max_active_limit_orders,
            self.price_filter,
            self.quantity_filter,
        )
    }

    /// The settings, or `None` if they are not usable.
    pub fn new(
        fee_maker: Fee,
        fee_taker: Fee,
        starting_wallet_balance: Decimal,
        leverage: Leverage,
        futures_type: FuturesType,
        max_active_limit_orders: usize,
        price_filter: PriceFilter,
        quantity_filter: QuantityFilter,
    ) -> (r: Option<Config>)
        ensures
            r.is_some() <==> settings_valid(
                fee_maker,
                fee_taker,
                starting_wallet_balance,
                leverage,
                max_active_limit_orders,
                price_filter,
                quantity_filter,
            ),
            r.is_some() ==> r.unwrap().wf() && r.unwrap() == (Config {
                fee_maker,
                fee_taker,
                starting_wallet_balance,
                leverage,
                futures_type,
                max_active_limit_orders,
                price_filter,
                quantity_filter,
            }),
    {
        let zero = Decimal::zero();
        let one = Decimal::one();
        let fees_ok = fee_maker.inner().ge(zero) && fee_maker.inner().le(one)
            && fee_taker.inner().ge(zero) && fee_taker.inner().le(one);
        let price_filter_ok = price_filter.tick_size.inner().gt(zero)
            && price_filter.min_price.inner().ge(zero) && price_filter.max_price.inner().ge(zero)
            && price_filter.multiplier_up.ge(zero) && price_filter.multiplier_down.ge(zero);
        let quantity_filter_ok = quantity_filter.step_size.gt(zero)
            && quantity_filter.min_quantity.ge(zero) && quantity_filter.max_quantity.ge(zero);
        if !fees_ok || !starting_wallet_balance.gt(zero) || !leverage.inner().ge(one)
            || max_active_limit_orders == 0 || !price_filter_ok || !quantity_filter_ok {
            return None;
        }
        Some(
            Config {
                fee_maker,
                fee_taker,
                starting_wallet_balance,
                leverage,
                futures_type,
                max_active_limit_orders,
                price_filter,
                quantity_filter,
            },
        )
    }

    /// The fee rate for fills of resting orders.
    pub fn fee_maker(&self) -> (r: Fee)
        ensures
            r == self.fee_maker,
    {
        self.fee_maker
    }

    /// The fee rate for market orders.
    pub fn fee_taker(&self) -> (r: Fee)
        ensures
            r == self.fee_taker,
    {
        self.fee_taker
    }

    /// What the account owns at the start.
    pub fn starting_wallet_balance(&self) -> (r: Decimal)
        ensures
            r == self.starting_wallet_balance,
    {
        self.starting_wallet_balance
    }

    /// The leverage of the position.
    pub fn leverage(&self) -> (r: Leverage)
        ensures
            r == self.leverage,
    {
        self.leverage
    }

    /// The contract flavour.
    pub fn futures_type(&self) -> (r: FuturesType)
        ensures
            r == self.futures_type,
    {
        self.futures_type
    }

    /// How many limit orders may rest at once.
    pub fn max_active_limit_orders(&self) -> (r: usize)
        ensures
            r == self.max_active_limit_orders,
    {
        self.max_active_limit_orders
    }

    /// The price rules.
    pub fn price_filter(&self) -> (r: PriceFilter)
        ensures
            r == self.price_filter,
    {
        self.price_filter
    }

    /// The quantity rules.
    pub fn quantity_filter(&self) -> (r: QuantityFilter)
        ensures
            r == self.quantity_filter,
    {
        self.quantity_filter
    }
}

} // verus!
