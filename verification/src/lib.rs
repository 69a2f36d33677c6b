//! A deterministic single-venue futures exchange simulator: fixed-point
//! money, order filters, isolated positions, margin accounting and the
//! matching of resting limit orders against market updates.

pub mod decimal;
pub mod literal;
pub mod errors;
pub mod side;
pub mod currency;
pub mod market_update;
pub mod order;
pub mod price_filter;
pub mod quantity_filter;
pub mod position;
pub mod order_margin;
pub mod active_orders;
pub mod margin;
pub mod account;
pub mod validator;
pub mod market_state;
pub mod config;
pub mod exchange;
pub mod invariants;
