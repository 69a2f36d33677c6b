use lfest::currency::QuoteCurrency;
use lfest::decimal::Decimal;
use lfest::errors::{Error, OrderError};
use lfest::market_update::MarketUpdate;
use lfest::order::Order;
use lfest::price_filter::{
    enforce_bid_ask_spread, enforce_max_price, enforce_min_price, enforce_step_size, PriceFilter,
};
use lfest::side::Side;

fn dec(text: &str) -> Decimal {
    Decimal::parse(text).unwrap()
}

fn quote(text: &str) -> QuoteCurrency {
    QuoteCurrency::new(dec(text))
}

fn sample_filter() -> PriceFilter {
    PriceFilter {
        min_price: quote("0.1"),
        max_price: quote("1000"),
        tick_size: quote("0.1"),
        multiplier_up: dec("1.2"),
        multiplier_down: dec("0.8"),
    }
}

#[test]
fn price_filter() {
    let filter = PriceFilter {
        min_price: quote("0.1"),
        max_price: quote("1000.0"),
        tick_size: quote("0.1"),
        multiplier_up: dec("1.2"),
        multiplier_down: dec("0.8"),
    };
    let mark_price = quote("100.0");

    // Market orders should always pass as the price filter only concerns limit
    // orders
    let order = Order::market(Side::Buy, dec("0.1")).unwrap();
    filter.validate_order(&order, mark_price).unwrap();
    let order = Order::market(Side::Sell, dec("0.1")).unwrap();
    filter.validate_order(&order, mark_price).unwrap();

    // Some passing orders
    let order = Order::limit(Side::Buy, quote("99.0"), dec("0.1")).unwrap();
    filter.validate_order(&order, mark_price).unwrap();
    let order = Order::limit(Side::Sell, quote("99.0"), dec("0.1")).unwrap();
    filter.validate_order(&order, mark_price).unwrap();

    // beyond max and min
    let order = Order::limit(Side::Buy, quote("0.05"), dec("0.1")).unwrap();
    assert_eq!(
        filter.validate_order(&order, mark_price),
        Err(OrderError::LimitPriceBelowMin)
    );
    let order = Order::limit(Side::Buy, quote("1001"), dec("0.1")).unwrap();
    assert_eq!(
        filter.validate_order(&order, mark_price),
        Err(OrderError::LimitPriceAboveMax)
    );

    // Test upper price band
    let order = Order::limit(Side::Buy, quote("120"), dec("0.1")).unwrap();
    filter.validate_order(&order, mark_price).unwrap();
    let order = Order::limit(Side::Buy, quote("121"), dec("0.1")).unwrap();
    assert_eq!(
        filter.validate_order(&order, mark_price),
        Err(OrderError::LimitPriceAboveMultiple)
    );

    // Test lower price band
    let order = Order::limit(Side::Buy, quote("80"), dec("0.1")).unwrap();
    filter.validate_order(&order, mark_price).unwrap();
    let order = Order::limit(Side::Buy, quote("79"), dec("0.1")).unwrap();
    assert_eq!(
        filter.validate_order(&order, mark_price),
        Err(OrderError::LimitPriceBelowMultiple)
    );

    // Test step size
    let order = Order::limit(Side::Buy, quote("100.05"), dec("0.1")).unwrap();
    assert_eq!(
        filter.validate_order(&order, mark_price),
        Err(OrderError::InvalidOrderPriceStepSize)
    );
}

#[test]
fn default_price_filter_has_unit_ticks_and_no_bounds() {
    let filter = PriceFilter::default();
    assert_eq!(filter.min_price, quote("0"));
    assert_eq!(filter.max_price, quote("0"));
    assert_eq!(filter.tick_size, quote("1"));
    assert_eq!(filter.multiplier_up, dec("2"));
    assert_eq!(filter.multiplier_down, dec("0"));
}

#[test]
fn disabled_bounds_let_every_price_pass() {
    assert_eq!(enforce_min_price(quote("0"), quote("0.00000001")), Ok(()));
    assert_eq!(enforce_max_price(quote("0"), quote("1000000")), Ok(()));
}

#[test]
fn enabled_bounds_reject_prices_outside() {
    assert_eq!(
        enforce_min_price(quote("10"), quote("9.9")),
        Err(Error::MarketUpdatePriceTooLow)
    );
    assert_eq!(enforce_min_price(quote("10"), quote("10")), Ok(()));
    assert_eq!(
        enforce_max_price(quote("10"), quote("10.1")),
        Err(Error::MarketUpdatePriceTooHigh)
    );
    assert_eq!(enforce_max_price(quote("10"), quote("10")), Ok(()));
}

#[test]
fn step_size_is_enforced_on_market_prices() {
    assert_eq!(enforce_step_size(quote("0.5"), quote("100.5")), Ok(()));
    assert_eq!(
        enforce_step_size(quote("0.5"), quote("100.4")),
        Err(Error::MarketUpdatePriceStepSize)
    );
}

#[test]
fn spread_has_to_be_positive() {
    assert_eq!(enforce_bid_ask_spread(quote("100"), quote("101")), Ok(()));
    assert_eq!(
        enforce_bid_ask_spread(quote("100"), quote("100")),
        Err(Error::InvalidMarketUpdateBidAskSpread)
    );
    assert_eq!(
        enforce_bid_ask_spread(quote("101"), quote("100")),
        Err(Error::InvalidMarketUpdateBidAskSpread)
    );
}

#[test]
fn market_updates_are_checked_in_order() {
    let filter = sample_filter();
    let ok = MarketUpdate::bba(quote("100"), quote("100.1"));
    assert_eq!(filter.validate_market_update(&ok), Ok(()));
    // too low wins over too high
    let u = MarketUpdate::bba(quote("0.05"), quote("2000"));
    assert_eq!(
        filter.validate_market_update(&u),
        Err(Error::MarketUpdatePriceTooLow)
    );
    let u = MarketUpdate::bba(quote("100"), quote("2000"));
    assert_eq!(
        filter.validate_market_update(&u),
        Err(Error::MarketUpdatePriceTooHigh)
    );
    let u = MarketUpdate::bba(quote("100.05"), quote("101"));
    assert_eq!(
        filter.validate_market_update(&u),
        Err(Error::MarketUpdatePriceStepSize)
    );
    let u = MarketUpdate::bba(quote("101"), quote("101"));
    assert_eq!(
        filter.validate_market_update(&u),
        Err(Error::InvalidMarketUpdateBidAskSpread)
    );
    let u = MarketUpdate::candle(quote("100"), quote("101"), quote("102"), quote("102"));
    assert_eq!(
        filter.validate_market_update(&u),
        Err(Error::InvalidMarketUpdateBidAskSpread)
    );
    let u = MarketUpdate::candle(quote("100"), quote("101"), quote("99"), quote("102"));
    assert_eq!(filter.validate_market_update(&u), Ok(()));
    let u = MarketUpdate::trade(quote("100.05"), dec("1"), Side::Buy);
    assert_eq!(
        filter.validate_market_update(&u),
        Err(Error::MarketUpdatePriceStepSize)
    );
    let u = MarketUpdate::trade(quote("100"), dec("1"), Side::Sell);
    assert_eq!(filter.validate_market_update(&u), Ok(()));
}

#[test]
fn the_step_of_market_prices_is_taken_from_the_minimum() {
    let filter = PriceFilter {
        min_price: quote("0.5"),
        max_price: quote("0"),
        tick_size: quote("1"),
        multiplier_up: dec("2"),
        multiplier_down: dec("0"),
    };
    let u = MarketUpdate::bba(quote("1.5"), quote("2.5"));
    assert_eq!(filter.validate_market_update(&u), Ok(()));
    let u = MarketUpdate::bba(quote("1"), quote("2"));
    assert_eq!(
        filter.validate_market_update(&u),
        Err(Error::MarketUpdatePriceStepSize)
    );
    let u = MarketUpdate::bba(quote("1.5"), quote("2"));
    assert_eq!(
        filter.validate_market_update(&u),
        Err(Error::MarketUpdatePriceStepSize)
    );
    let u = MarketUpdate::trade(quote("7.5"), dec("1"), Side::Buy);
    assert_eq!(filter.validate_market_update(&u), Ok(()));
    let u = MarketUpdate::trade(quote("7"), dec("1"), Side::Buy);
    assert_eq!(
        filter.validate_market_update(&u),
        Err(Error::MarketUpdatePriceStepSize)
    );
    let u = MarketUpdate::candle(quote("1.5"), quote("2.5"), quote("0.5"), quote("9.5"));
    assert_eq!(filter.validate_market_update(&u), Ok(()));
    let u = MarketUpdate::candle(quote("1.5"), quote("2.5"), quote("0.5"), quote("9"));
    assert_eq!(
        filter.validate_market_update(&u),
        Err(Error::MarketUpdatePriceStepSize)
    );
    // the same rule holds for the limit price of an order
    let order = Order::limit(Side::Buy, quote("1.5"), dec("1")).unwrap();
    assert_eq!(filter.validate_order(&order, quote("1.5")), Ok(()));
    let order = Order::limit(Side::Buy, quote("2"), dec("1")).unwrap();
    assert_eq!(
        filter.validate_order(&order, quote("1.5")),
        Err(OrderError::InvalidOrderPriceStepSize)
    );
    assert_eq!(filter.above_minimum(quote("2.5")), quote("2"));
    assert_eq!(PriceFilter::default().above_minimum(quote("-3")), quote("-3"));
}
