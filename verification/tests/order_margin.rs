use lfest::currency::{Fee, Leverage, QuoteCurrency};
use lfest::decimal::Decimal;
use lfest::order::Order;
use lfest::order_margin::{order_margin, order_margin_representable};
use lfest::side::{FuturesType, Side};

fn dec(text: &str) -> Decimal {
    Decimal::parse(text).unwrap()
}

fn quote(text: &str) -> QuoteCurrency {
    QuoteCurrency::new(dec(text))
}

fn fee(text: &str) -> Fee {
    Fee::new(dec(text)).unwrap()
}

fn lev(text: &str) -> Leverage {
    Leverage::new(dec(text)).unwrap()
}

fn buy(id: u64, price: &str, size: &str) -> Order {
    let mut o = Order::limit(Side::Buy, quote(price), dec(size)).unwrap();
    o.set_id(id);
    o
}

fn sell(id: u64, price: &str, size: &str) -> Order {
    let mut o = Order::limit(Side::Sell, quote(price), dec(size)).unwrap();
    o.set_id(id);
    o
}

#[test]
fn no_orders_need_no_margin() {
    let orders: Vec<Order> = Vec::new();
    for ft in [FuturesType::Linear, FuturesType::Inverse] {
        for position in ["-5", "0", "5"] {
            assert_eq!(
                order_margin(&orders, dec(position), ft, lev("2"), fee("0.0002")),
                dec("0")
            );
        }
    }
}

#[test]
fn one_inverse_buy_needs_its_value_and_its_fee() {
    let orders = vec![buy(0, "900", "450")];
    // 450 / 900 + 450 * 0.0002 / 900
    assert_eq!(
        order_margin(
            &orders,
            dec("0"),
            FuturesType::Inverse,
            lev("1"),
            fee("0.0002")
        ),
        dec("0.5001")
    );
}

#[test]
fn one_linear_buy_needs_its_value_and_its_fee() {
    let orders = vec![buy(0, "100", "9.9")];
    // 9.9 * 100 + 9.9 * 0.0002 * 100
    assert_eq!(
        order_margin(
            &orders,
            dec("0"),
            FuturesType::Linear,
            lev("1"),
            fee("0.0002")
        ),
        dec("990.198")
    );
}

#[test]
fn only_the_dearer_side_counts_but_both_pay_fees() {
    let orders = vec![buy(0, "100", "50"), sell(1, "101", "50")];
    // buys: 50 / 100 = 0.5; sells: 50 / 101 = 0.49504950
    assert_eq!(
        order_margin(&orders, dec("0"), FuturesType::Inverse, lev("1"), fee("0")),
        dec("0.5")
    );
    // fees: 50 * 0.0002 / 100 + 50 * 0.0002 / 101 = 0.0001 + 0.00009901
    assert_eq!(
        order_margin(
            &orders,
            dec("0"),
            FuturesType::Inverse,
            lev("1"),
            fee("0.0002")
        ),
        dec("0.50019901")
    );
    let orders = vec![buy(0, "100", "1"), sell(1, "100", "3")];
    assert_eq!(
        order_margin(&orders, dec("0"), FuturesType::Linear, lev("1"), fee("0")),
        dec("300")
    );
}

#[test]
fn orders_that_close_the_position_need_no_margin() {
    let sells = vec![sell(0, "100", "1")];
    let zero = fee("0");
    let one = lev("1");
    let linear = FuturesType::Linear;
    assert_eq!(order_margin(&sells, dec("0"), linear, one, zero), dec("100"));
    assert_eq!(order_margin(&sells, dec("0.5"), linear, one, zero), dec("50"));
    assert_eq!(order_margin(&sells, dec("1"), linear, one, zero), dec("0"));
    assert_eq!(order_margin(&sells, dec("2"), linear, one, zero), dec("0"));
    // a short is no help to a sell
    assert_eq!(order_margin(&sells, dec("-2"), linear, one, zero), dec("100"));
    let buys = vec![buy(0, "100", "1")];
    assert_eq!(order_margin(&buys, dec("-0.5"), linear, one, zero), dec("50"));
    assert_eq!(order_margin(&buys, dec("-1"), linear, one, zero), dec("0"));
    assert_eq!(order_margin(&buys, dec("3"), linear, one, zero), dec("100"));
    // the fee stays
    assert_eq!(
        order_margin(&buys, dec("-1"), linear, one, fee("0.001")),
        dec("0.1")
    );
}

#[test]
fn what_is_taken_off_is_valued_at_the_average_price() {
    let sells = vec![sell(0, "100", "1"), sell(1, "200", "1")];
    // size 2, value 300; a long of 1 leaves 1 * 300 / 2
    assert_eq!(
        order_margin(&sells, dec("1"), FuturesType::Linear, lev("1"), fee("0")),
        dec("150")
    );
    // under a leverage of 3
    assert_eq!(
        order_margin(&sells, dec("1"), FuturesType::Linear, lev("3"), fee("0")),
        dec("50")
    );
    let buys = vec![buy(0, "100", "100"), buy(1, "50", "100")];
    // size 200, value 1 + 2 = 3; a short of 50 leaves 150 * 3 / 200 = 2.25
    assert_eq!(
        order_margin(&buys, dec("-50"), FuturesType::Inverse, lev("1"), fee("0")),
        dec("2.25")
    );
}

#[test]
fn leverage_divides_the_margin_but_not_the_fee() {
    let orders = vec![buy(0, "100", "3")];
    // 300 / 4 + 3 * 0.001 * 100
    assert_eq!(
        order_margin(
            &orders,
            dec("0"),
            FuturesType::Linear,
            lev("4"),
            fee("0.001")
        ),
        dec("75.3")
    );
}

#[test]
fn another_order_never_lowers_the_margin() {
    let maker = fee("0.0002");
    let one = lev("2");
    let mut orders = vec![buy(0, "100", "20"), sell(1, "110", "5")];
    for ft in [FuturesType::Linear, FuturesType::Inverse] {
        for position in ["-10", "0", "10"] {
            let mut seen = order_margin(&orders, dec(position), ft, one, maker);
            let more = [
                buy(2, "1", "1"),
                sell(3, "500", "30"),
                buy(4, "99.5", "0.00000001"),
                sell(5, "0.5", "7"),
            ];
            let mut grown = orders.clone();
            for o in more {
                grown.push(o);
                let next = order_margin(&grown, dec(position), ft, one, maker);
                assert!(next >= seen);
                seen = next;
            }
        }
    }
    orders.clear();
}

#[test]
fn totals_that_outgrow_a_decimal_are_found() {
    let maker = fee("0.0002");
    let small = vec![buy(0, "100", "20"), sell(1, "110", "5")];
    assert!(order_margin_representable(
        &small,
        FuturesType::Linear,
        maker
    ));
    assert!(order_margin_representable(
        &small,
        FuturesType::Inverse,
        maker
    ));
    // 9000000 * 90000000 is too much for a single order
    let dear = vec![buy(0, "90000000", "9000000")];
    assert!(!order_margin_representable(
        &dear,
        FuturesType::Linear,
        maker
    ));
    assert!(order_margin_representable(
        &dear,
        FuturesType::Inverse,
        maker
    ));
    // each order fits, their sizes together do not
    let many = vec![
        buy(0, "0.00000001", "50000000000"),
        buy(1, "0.00000001", "50000000000"),
    ];
    assert!(!order_margin_representable(
        &many,
        FuturesType::Linear,
        maker
    ));
    // on two sides they do
    let split = vec![
        buy(0, "0.00000001", "50000000000"),
        sell(1, "0.00000001", "50000000000"),
    ];
    assert!(order_margin_representable(
        &split,
        FuturesType::Linear,
        maker
    ));
}
