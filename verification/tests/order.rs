use lfest::config::Config;
use lfest::currency::{Fee, Leverage, QuoteCurrency};
use lfest::decimal::Decimal;
use lfest::errors::{Error, OrderError};
use lfest::order::Order;
use lfest::price_filter::PriceFilter;
use lfest::quantity_filter::QuantityFilter;
use lfest::side::{FuturesType, OrderStatus, Side};

fn dec(text: &str) -> Decimal {
    Decimal::parse(text).unwrap()
}

fn quote(text: &str) -> QuoteCurrency {
    QuoteCurrency::new(dec(text))
}

#[test]
fn market_orders_need_a_positive_size() {
    let o = Order::market(Side::Buy, dec("0.1")).unwrap();
    assert_eq!(o.id(), 0);
    assert_eq!(o.side(), Side::Buy);
    assert_eq!(o.size(), dec("0.1"));
    assert_eq!(o.limit_price(), None);
    assert_eq!(o.timestamp_ns(), 0);
    assert_eq!(o.status(), OrderStatus::Pending);
    assert_eq!(
        Order::market(Side::Sell, dec("0")),
        Err(OrderError::InvalidOrderQuantity)
    );
    assert_eq!(
        Order::market(Side::Sell, dec("-1")),
        Err(OrderError::InvalidOrderQuantity)
    );
}

#[test]
fn limit_orders_need_a_positive_price_and_size() {
    let o = Order::limit(Side::Sell, quote("101.5"), dec("3")).unwrap();
    assert_eq!(o.side(), Side::Sell);
    assert_eq!(o.size(), dec("3"));
    assert_eq!(o.limit_price(), Some(quote("101.5")));
    assert_eq!(o.status(), OrderStatus::Pending);
    assert_eq!(
        Order::limit(Side::Buy, quote("0"), dec("3")),
        Err(OrderError::InvalidLimitPrice)
    );
    assert_eq!(
        Order::limit(Side::Buy, quote("-1"), dec("3")),
        Err(OrderError::InvalidLimitPrice)
    );
    assert_eq!(
        Order::limit(Side::Buy, quote("1"), dec("0")),
        Err(OrderError::InvalidOrderQuantity)
    );
    // the price is looked at first
    assert_eq!(
        Order::limit(Side::Buy, quote("0"), dec("0")),
        Err(OrderError::InvalidLimitPrice)
    );
}

#[test]
fn orders_can_be_stamped_and_marked() {
    let mut o = Order::limit(Side::Buy, quote("100"), dec("1")).unwrap();
    o.set_id(42);
    o.set_timestamp_ns(7);
    assert_eq!(o.id(), 42);
    assert_eq!(o.timestamp_ns(), 7);
    assert_eq!(o.size(), dec("1"));
    let mut filled = o;
    filled.mark_filled();
    assert_eq!(filled.status(), OrderStatus::Filled);
    let mut cancelled = o;
    cancelled.mark_cancelled();
    assert_eq!(cancelled.status(), OrderStatus::Cancelled);
    assert_eq!(o.status(), OrderStatus::Pending);
}

#[test]
fn sides_invert() {
    assert_eq!(Side::Buy.inverted(), Side::Sell);
    assert_eq!(Side::Sell.inverted(), Side::Buy);
}

#[test]
fn order_errors_have_stable_names() {
    assert_eq!(OrderError::LimitPriceBelowMin.name(), "LimitPriceBelowMin");
    assert_eq!(OrderError::LimitPriceAboveMax.name(), "LimitPriceAboveMax");
    assert_eq!(
        OrderError::InvalidOrderPriceStepSize.name(),
        "InvalidOrderPriceStepSize"
    );
    assert_eq!(
        OrderError::LimitPriceAboveMultiple.name(),
        "LimitPriceAboveMultiple"
    );
    assert_eq!(
        OrderError::LimitPriceBelowMultiple.name(),
        "LimitPriceBelowMultiple"
    );
    assert_eq!(OrderError::InvalidLimitPrice.name(), "InvalidLimitPrice");
    assert_eq!(
        OrderError::InvalidOrderQuantity.name(),
        "InvalidOrderQuantity"
    );
    assert_eq!(
        OrderError::NotEnoughAvailableBalance.name(),
        "NotEnoughAvailableBalance"
    );
    assert_eq!(OrderError::MaxActiveOrders.name(), "MaxActiveOrders");
}

#[test]
fn market_errors_have_stable_names() {
    assert_eq!(
        Error::InvalidMarketUpdateBidAskSpread.name(),
        "InvalidMarketUpdateBidAskSpread"
    );
    assert_eq!(
        Error::MarketUpdatePriceTooLow.name(),
        "MarketUpdatePriceTooLow"
    );
    assert_eq!(
        Error::MarketUpdatePriceTooHigh.name(),
        "MarketUpdatePriceTooHigh"
    );
    assert_eq!(
        Error::MarketUpdatePriceStepSize.name(),
        "MarketUpdatePriceStepSize"
    );
    assert_eq!(Error::InvalidPrice.name(), "InvalidPrice");
}

#[test]
fn quantity_filter_checks_bounds_and_step() {
    let filter = QuantityFilter {
        min_quantity: dec("0.5"),
        max_quantity: dec("10"),
        step_size: dec("0.5"),
    };
    let ok = Order::market(Side::Buy, dec("1.5")).unwrap();
    assert_eq!(filter.validate_order(&ok), Ok(()));
    let at_min = Order::market(Side::Buy, dec("0.5")).unwrap();
    assert_eq!(filter.validate_order(&at_min), Ok(()));
    let at_max = Order::market(Side::Buy, dec("10")).unwrap();
    assert_eq!(filter.validate_order(&at_max), Ok(()));
    let small = Order::market(Side::Buy, dec("0.25")).unwrap();
    assert_eq!(
        filter.validate_order(&small),
        Err(OrderError::InvalidOrderQuantity)
    );
    let large = Order::market(Side::Buy, dec("10.5")).unwrap();
    assert_eq!(
        filter.validate_order(&large),
        Err(OrderError::InvalidOrderQuantity)
    );
    let odd = Order::market(Side::Buy, dec("1.25")).unwrap();
    assert_eq!(
        filter.validate_order(&odd),
        Err(OrderError::InvalidOrderQuantity)
    );
}

#[test]
fn default_quantity_filter_wants_whole_sizes() {
    let filter = QuantityFilter::default();
    assert_eq!(filter.min_quantity, dec("0"));
    assert_eq!(filter.max_quantity, dec("0"));
    assert_eq!(filter.step_size, dec("1"));
    let whole = Order::market(Side::Buy, dec("90000000000")).unwrap();
    assert_eq!(filter.validate_order(&whole), Ok(()));
    let part = Order::market(Side::Buy, dec("0.5")).unwrap();
    assert_eq!(
        filter.validate_order(&part),
        Err(OrderError::InvalidOrderQuantity)
    );
}

#[test]
fn settings_are_checked() {
    let maker = Fee::new(dec("0.0002")).unwrap();
    let taker = Fee::new(dec("0.0006")).unwrap();
    let one = Leverage::new(dec("1")).unwrap();
    let make = |balance: Decimal, max_orders: usize, pf: PriceFilter, qf: QuantityFilter| {
        Config::new(
            maker,
            taker,
            balance,
            one,
            FuturesType::Inverse,
            max_orders,
            pf,
            qf,
        )
    };
    let config = make(
        dec("1"),
        100,
        PriceFilter::default(),
        QuantityFilter::default(),
    )
    .unwrap();
    assert_eq!(config.fee_maker(), maker);
    assert_eq!(config.fee_taker(), taker);
    assert_eq!(config.starting_wallet_balance(), dec("1"));
    assert_eq!(config.leverage(), one);
    assert_eq!(config.futures_type(), FuturesType::Inverse);
    assert_eq!(config.max_active_limit_orders(), 100);
    assert_eq!(config.price_filter(), PriceFilter::default());
    assert_eq!(config.quantity_filter(), QuantityFilter::default());

    assert!(make(dec("0"), 100, PriceFilter::default(), QuantityFilter::default()).is_none());
    assert!(make(dec("-1"), 100, PriceFilter::default(), QuantityFilter::default()).is_none());
    assert!(make(dec("1"), 0, PriceFilter::default(), QuantityFilter::default()).is_none());
    let no_tick = PriceFilter {
        tick_size: quote("0"),
        ..PriceFilter::default()
    };
    assert!(make(dec("1"), 100, no_tick, QuantityFilter::default()).is_none());
    let no_step = QuantityFilter {
        step_size: dec("0"),
        ..QuantityFilter::default()
    };
    assert!(make(dec("1"), 100, PriceFilter::default(), no_step).is_none());
    let bad_fee = Fee { rate: dec("-0.1") };
    assert!(Config::new(
        bad_fee,
        taker,
        dec("1"),
        one,
        FuturesType::Linear,
        1,
        PriceFilter::default(),
        QuantityFilter::default()
    )
    .is_none());
    let bad_leverage = Leverage { factor: dec("0.5") };
    assert!(Config::new(
        maker,
        taker,
        dec("1"),
        bad_leverage,
        FuturesType::Linear,
        1,
        PriceFilter::default(),
        QuantityFilter::default()
    )
    .is_none());
}
