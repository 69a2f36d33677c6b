use lfest::config::Config;
use lfest::currency::{Fee, Leverage, QuoteCurrency};
use lfest::decimal::Decimal;
use lfest::exchange::Exchange;
use lfest::market_update::MarketUpdate;
use lfest::order::Order;
use lfest::price_filter::PriceFilter;
use lfest::quantity_filter::QuantityFilter;
use lfest::side::{FuturesType, Side};

fn dec(text: &str) -> Decimal {
    Decimal::parse(text).unwrap()
}

fn quote(text: &str) -> QuoteCurrency {
    QuoteCurrency::new(dec(text))
}

#[test]
fn limit_orders_only() {
    let config = Config::new(
        Fee::new(dec("0.0002")).unwrap(),
        Fee::new(dec("0.0006")).unwrap(),
        dec("1000.0"),
        Leverage::new(dec("1.0")).unwrap(),
        FuturesType::Linear,
        100,
        PriceFilter {
            tick_size: quote("0.1"),
            ..PriceFilter::default()
        },
        QuantityFilter {
            step_size: dec("0.1"),
            ..QuantityFilter::default()
        },
    )
    .unwrap();

    let mut exchange = Exchange::new(config);

    let (exec_orders, liq) = exchange
        .update_state(
            0,
            MarketUpdate::candle(quote("100.0"), quote("100.1"), quote("100.0"), quote("100.1")),
        )
        .unwrap();
    assert!(!liq);
    assert_eq!(exec_orders.len(), 0);

    let o = Order::limit(Side::Buy, quote("100.0"), dec("9.9")).unwrap();
    exchange.submit_order(o).unwrap();
    assert_eq!(exchange.account().margin().order_margin(), dec("990.198"));
    assert_eq!(exchange.account().margin().available_balance(), dec("9.802"));

    // the low of the period touches the limit price
    let (exec_orders, liq) = exchange
        .update_state(
            1,
            MarketUpdate::candle(quote("100.0"), quote("100.1"), quote("100.0"), quote("100.1")),
        )
        .unwrap();
    assert!(!liq);
    assert_eq!(exec_orders.len(), 1);

    assert_eq!(exchange.account().position().size(), dec("9.9"));
    assert_eq!(exchange.account().position().entry_price(), quote("100.0"));
    assert_eq!(
        exchange
            .account()
            .position()
            .unrealized_pnl(exchange.bid(), exchange.ask()),
        dec("0.0")
    );

    assert_eq!(exchange.account().margin().wallet_balance(), dec("999.802"));
    assert_eq!(exchange.account().margin().position_margin(), dec("990.0"));
    assert_eq!(exchange.account().margin().order_margin(), dec("0.0"));
    assert_eq!(exchange.account().margin().available_balance(), dec("9.802"));
}
