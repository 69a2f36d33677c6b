use lfest::account::{sides_equal, Account};
use lfest::currency::{Fee, Leverage, QuoteCurrency};
use lfest::decimal::Decimal;
use lfest::errors::OrderError;
use lfest::order::Order;
use lfest::side::{FuturesType, Side};
use lfest::validator::{notional_wide, Validator};

fn dec(text: &str) -> Decimal {
    Decimal::parse(text).unwrap()
}

fn quote(text: &str) -> QuoteCurrency {
    QuoteCurrency::new(dec(text))
}

fn fee(text: &str) -> Fee {
    Fee::new(dec(text)).unwrap()
}

fn validator(ft: FuturesType) -> Validator {
    let mut v = Validator::new(fee("0.0002"), fee("0.0006"), ft);
    v.update(quote("100"), quote("101"));
    v
}

fn account(ft: FuturesType, leverage: &str, balance: &str) -> Account {
    Account::new(
        Leverage::new(dec(leverage)).unwrap(),
        dec(balance),
        ft,
        fee("0.0002"),
        fee("0.0006"),
    )
}

fn raw(text: &str) -> i128 {
    i128::from(dec(text).raw())
}

#[test]
fn a_new_validator_knows_no_prices() {
    let v = Validator::new(fee("0.0002"), fee("0.0006"), FuturesType::Linear);
    assert_eq!(v.bid, quote("0"));
    assert_eq!(v.ask, quote("0"));
    assert_eq!(v.fee_maker, fee("0.0002"));
    assert_eq!(v.fee_taker, fee("0.0006"));
    assert_eq!(v.futures_type, FuturesType::Linear);
    let v = validator(FuturesType::Inverse);
    assert_eq!(v.bid, quote("100"));
    assert_eq!(v.ask, quote("101"));
    assert_eq!(v.fee_maker, fee("0.0002"));
    assert_eq!(v.futures_type, FuturesType::Inverse);
}

#[test]
fn a_market_order_from_flat_needs_its_margin_and_its_fee() {
    let v = validator(FuturesType::Inverse);
    let acc = account(FuturesType::Inverse, "2", "1");
    let buy = Order::market(Side::Buy, dec("80")).unwrap();
    // 80 / 2 / 101 and 80 * 0.0006 / 101
    assert_eq!(
        v.order_cost_market(&buy, &acc),
        (0, raw("0.39603960") + raw("0.00047525"))
    );
    let sell = Order::market(Side::Sell, dec("80")).unwrap();
    // 80 / 2 / 100 and 80 * 0.0006 / 100
    assert_eq!(
        v.order_cost_market(&sell, &acc),
        (0, raw("0.4") + raw("0.00048"))
    );
    let v = validator(FuturesType::Linear);
    let acc = account(FuturesType::Linear, "1", "1000");
    let buy = Order::market(Side::Buy, dec("2")).unwrap();
    // 2 * 101 and 2 * 0.0006 * 101
    assert_eq!(v.order_cost_market(&buy, &acc), (0, raw("202.1212")));
}

#[test]
fn a_market_order_against_the_position_gives_margin_back() {
    let v = validator(FuturesType::Inverse);
    let mut acc = account(FuturesType::Inverse, "2", "1");
    acc.change_position(Side::Buy, dec("50"), quote("101"));
    let sell = Order::market(Side::Sell, dec("80")).unwrap();
    // back: 50 / 2 / 100; needed: 30 / 2 / 100 and 80 * 0.0006 / 100
    assert_eq!(
        v.order_cost_market(&sell, &acc),
        (raw("0.25"), raw("0.15") + raw("0.00048"))
    );
    let small = Order::market(Side::Sell, dec("20")).unwrap();
    // back: 20 / 2 / 100; needed: the fee alone, 20 * 0.0006 / 100
    assert_eq!(
        v.order_cost_market(&small, &acc),
        (raw("0.1"), raw("0.00012"))
    );
    let more = Order::market(Side::Buy, dec("20")).unwrap();
    // nothing back; needed: 20 / 2 / 101 and 20 * 0.0006 / 101
    assert_eq!(
        v.order_cost_market(&more, &acc),
        (0, raw("0.09900990") + raw("0.00011881"))
    );
}

#[test]
fn a_market_order_from_flat_is_offset_by_resting_orders_of_the_other_side() {
    let v = validator(FuturesType::Inverse);
    let mut acc = account(FuturesType::Inverse, "1", "1");
    let mut resting = Order::limit(Side::Sell, quote("101"), dec("30")).unwrap();
    resting.set_id(1);
    let delta = v.validate_limit_order(&resting, &acc).unwrap();
    acc.append_limit_order(resting, delta);
    let buy = Order::market(Side::Buy, dec("50")).unwrap();
    // back: min(50, 30) / 101; needed: 50 / 101 and 50 * 0.0006 / 101
    assert_eq!(
        v.order_cost_market(&buy, &acc),
        (raw("0.29702970"), raw("0.49504950") + raw("0.00029703"))
    );
    let sell = Order::market(Side::Sell, dec("50")).unwrap();
    // no buys rest: nothing back
    assert_eq!(
        v.order_cost_market(&sell, &acc),
        (0, raw("0.5") + raw("0.0003"))
    );
}

#[test]
fn an_order_that_needs_exactly_what_is_there_is_admitted() {
    let v = validator(FuturesType::Linear);
    // 2 * 101 + 2 * 0.0006 * 101
    let enough = account(FuturesType::Linear, "1", "202.1212");
    let short = account(FuturesType::Linear, "1", "202.12119999");
    let buy = Order::market(Side::Buy, dec("2")).unwrap();
    assert_eq!(v.validate_market_order(&buy, &enough), Ok(()));
    assert_eq!(
        v.validate_market_order(&buy, &short),
        Err(OrderError::NotEnoughAvailableBalance)
    );
    // a limit order of 2 at 101: 202 + 2 * 0.0002 * 101
    let limit = Order::limit(Side::Buy, quote("101"), dec("2")).unwrap();
    let enough = account(FuturesType::Linear, "1", "202.0404");
    let short = account(FuturesType::Linear, "1", "202.04039999");
    assert_eq!(v.validate_limit_order(&limit, &enough), Ok(dec("202.0404")));
    assert_eq!(
        v.validate_limit_order(&limit, &short),
        Err(OrderError::NotEnoughAvailableBalance)
    );
    // the book is looked at before the balance
    let crossing = Order::limit(Side::Buy, quote("101.5"), dec("2000")).unwrap();
    assert_eq!(
        v.validate_limit_order(&crossing, &short),
        Err(OrderError::InvalidLimitPrice)
    );
    let crossing = Order::limit(Side::Sell, quote("99.5"), dec("2000")).unwrap();
    assert_eq!(
        v.validate_limit_order(&crossing, &short),
        Err(OrderError::InvalidLimitPrice)
    );
    // at the ask and at the bid an order does not cross
    let at_ask = Order::limit(Side::Buy, quote("101"), dec("1")).unwrap();
    assert!(v.validate_limit_order(&at_ask, &enough).is_ok());
    let at_bid = Order::limit(Side::Sell, quote("100"), dec("1")).unwrap();
    assert!(v.validate_limit_order(&at_bid, &enough).is_ok());
}

#[test]
fn wide_values_hold_what_a_decimal_cannot() {
    assert_eq!(
        notional_wide(FuturesType::Linear, dec("2"), quote("101")),
        raw("202")
    );
    assert_eq!(
        notional_wide(FuturesType::Inverse, dec("2"), quote("3")),
        raw("0.66666667")
    );
    // 9000000 * 90000000 = 810000000000000
    assert_eq!(
        notional_wide(FuturesType::Linear, dec("9000000"), quote("90000000")),
        81_000_000_000_000_000_000_000
    );
    // 9000000 / 0.00000001
    assert_eq!(
        notional_wide(FuturesType::Inverse, dec("9000000"), quote("0.00000001")),
        90_000_000_000_000_000_000_000
    );
    assert_eq!(notional_wide(FuturesType::Linear, dec("0"), quote("5")), 0);
}

#[test]
fn sides_are_compared() {
    assert!(sides_equal(Side::Buy, Side::Buy));
    assert!(sides_equal(Side::Sell, Side::Sell));
    assert!(!sides_equal(Side::Buy, Side::Sell));
    assert!(!sides_equal(Side::Sell, Side::Buy));
}

#[test]
fn the_cost_of_a_limit_order_is_what_the_order_margin_grows_by() {
    let v = validator(FuturesType::Inverse);
    let mut acc = account(FuturesType::Inverse, "1", "1");
    let mut first = Order::limit(Side::Buy, quote("100"), dec("50")).unwrap();
    first.set_id(1);
    let cost = v.limit_order_margin_cost(&first, &acc);
    // 50 / 100 + 50 * 0.0002 / 100
    assert_eq!(cost, dec("0.5001"));
    assert_eq!(v.validate_limit_order(&first, &acc), Ok(cost));
    let available = acc.available_balance();
    acc.append_limit_order(first, cost);
    assert_eq!(acc.margin().order_margin(), cost);
    assert_eq!(acc.available_balance(), available.sub(cost));
    assert!(acc.available_balance() >= dec("0"));
    // a sell on the cheaper side costs its fee alone: 30 * 0.0002 / 101
    let mut second = Order::limit(Side::Sell, quote("101"), dec("30")).unwrap();
    second.set_id(2);
    let held = acc.margin().order_margin();
    let cost = v.limit_order_margin_cost(&second, &acc);
    assert_eq!(cost, dec("0.00005941"));
    assert!(cost >= dec("0"));
    acc.append_limit_order(second, cost);
    assert_eq!(acc.margin().order_margin(), held.add(cost));
    assert_eq!(
        acc.available_balance()
            .add(acc.margin().position_margin())
            .add(acc.margin().order_margin()),
        acc.margin().wallet_balance()
    );
}

#[test]
fn validation_says_when_it_cannot_value_an_order() {
    let v = validator(FuturesType::Linear);
    let acc = account(FuturesType::Linear, "1", "1000");
    let small = Order::limit(Side::Buy, quote("100"), dec("2")).unwrap();
    assert!(v.limit_order_representable(&small, &acc));
    // 200 + 2 * 0.0002 * 100
    assert_eq!(
        v.try_validate_limit_order(&small, &acc),
        Some(Ok(dec("200.04")))
    );
    let dear = Order::limit(Side::Buy, quote("100"), dec("20")).unwrap();
    assert_eq!(
        v.try_validate_limit_order(&dear, &acc),
        Some(Err(OrderError::NotEnoughAvailableBalance))
    );
    let crossing = Order::limit(Side::Buy, quote("102"), dec("2")).unwrap();
    assert_eq!(
        v.try_validate_limit_order(&crossing, &acc),
        Some(Err(OrderError::InvalidLimitPrice))
    );
    // 9000000 * 90000000 outgrows a decimal
    let large = Order::limit(Side::Sell, quote("90000000"), dec("9000000")).unwrap();
    assert!(!v.limit_order_representable(&large, &acc));
    assert_eq!(v.try_validate_limit_order(&large, &acc), None);

    let buy = Order::market(Side::Buy, dec("2")).unwrap();
    assert_eq!(v.try_validate_market_order(&buy, &acc), Some(Ok(())));
    let many = Order::market(Side::Buy, dec("20")).unwrap();
    assert_eq!(
        v.try_validate_market_order(&many, &acc),
        Some(Err(OrderError::NotEnoughAvailableBalance))
    );
    // without a positive price a market order cannot be valued
    let blind = Validator::new(fee("0.0002"), fee("0.0006"), FuturesType::Linear);
    assert_eq!(blind.try_validate_market_order(&buy, &acc), None);
    let mut half = blind;
    half.update(quote("0"), quote("101"));
    assert_eq!(half.try_validate_market_order(&buy, &acc), Some(Ok(())));
    let sell = Order::market(Side::Sell, dec("2")).unwrap();
    assert_eq!(half.try_validate_market_order(&sell, &acc), None);
}
