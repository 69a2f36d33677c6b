use lfest::account::Account;
use lfest::active_orders::{copy_orders, find_by_id, insert_sorted, remove_by_id};
use lfest::currency::{Fee, Leverage, QuoteCurrency};
use lfest::decimal::Decimal;
use lfest::order::Order;
use lfest::side::{FuturesType, Side};
use lfest::validator::Validator;

fn dec(text: &str) -> Decimal {
    Decimal::parse(text).unwrap()
}

fn quote(text: &str) -> QuoteCurrency {
    QuoteCurrency::new(dec(text))
}

fn fee(text: &str) -> Fee {
    Fee::new(dec(text)).unwrap()
}

fn lev(text: &str) -> Leverage {
    Leverage::new(dec(text)).unwrap()
}

fn limit(id: u64, side: Side, price: &str, size: &str) -> Order {
    let mut o = Order::limit(side, quote(price), dec(size)).unwrap();
    o.set_id(id);
    o
}

fn inverse_account() -> Account {
    Account::new(
        lev("1"),
        dec("1"),
        FuturesType::Inverse,
        fee("0.0002"),
        fee("0.0006"),
    )
}

fn validator() -> Validator {
    let mut v = Validator::new(fee("0.0002"), fee("0.0006"), FuturesType::Inverse);
    v.update(quote("1000"), quote("1001"));
    v
}

fn rest(acc: &mut Account, o: Order) {
    let delta = validator().validate_limit_order(&o, acc).unwrap();
    acc.append_limit_order(o, delta);
}

fn identity_holds(acc: &Account) {
    let m = acc.margin();
    assert_eq!(
        acc.available_balance()
            .add(m.position_margin())
            .add(m.order_margin()),
        m.wallet_balance()
    );
    assert_eq!(m.available_balance(), acc.available_balance());
    assert_eq!(m.position_margin(), acc.position().position_margin());
    assert!(m.position_margin() >= dec("0"));
    assert!(m.order_margin() >= dec("0"));
}

#[test]
fn a_new_account_owns_its_starting_balance() {
    let acc = inverse_account();
    assert_eq!(acc.margin().wallet_balance(), dec("1"));
    assert_eq!(acc.margin().position_margin(), dec("0"));
    assert_eq!(acc.margin().order_margin(), dec("0"));
    assert_eq!(acc.available_balance(), dec("1"));
    assert_eq!(acc.position().size(), dec("0"));
    assert_eq!(acc.active_limit_orders().len(), 0);
    assert_eq!(acc.open_limit_buy_size(), dec("0"));
    assert_eq!(acc.open_limit_sell_size(), dec("0"));
    identity_holds(&acc);
}

#[test]
fn resting_orders_tie_up_margin_and_are_kept_by_identifier() {
    let mut acc = inverse_account();
    rest(&mut acc, limit(7, Side::Buy, "900", "450"));
    assert_eq!(acc.margin().order_margin(), dec("0.5001"));
    assert_eq!(acc.available_balance(), dec("0.4999"));
    identity_holds(&acc);
    rest(&mut acc, limit(3, Side::Sell, "1200", "120"));
    // sells: 120 / 1200 = 0.1 < 0.5; fees: 0.0001 + 0.00002
    assert_eq!(acc.margin().order_margin(), dec("0.50012"));
    rest(&mut acc, limit(5, Side::Buy, "1000", "100"));
    // buys: 0.5 + 0.1; fees: 0.0001 + 0.00002 + 0.00002
    assert_eq!(acc.margin().order_margin(), dec("0.60014"));
    let ids: Vec<u64> = acc.active_limit_orders().iter().map(|o| o.id()).collect();
    assert_eq!(ids, vec![3, 5, 7]);
    assert_eq!(acc.open_limit_buy_size(), dec("550"));
    assert_eq!(acc.open_limit_sell_size(), dec("120"));
    assert_eq!(acc.open_limit_size(Side::Buy), dec("550"));
    identity_holds(&acc);
}

#[test]
fn cancelling_computes_the_order_margin_afresh() {
    let mut acc = inverse_account();
    rest(&mut acc, limit(1, Side::Buy, "900", "450"));
    rest(&mut acc, limit(2, Side::Sell, "1200", "120"));
    assert_eq!(acc.cancel_order(9), None);
    assert_eq!(acc.margin().order_margin(), dec("0.50012"));
    let gone = acc.cancel_order(1).unwrap();
    assert_eq!(gone.id(), 1);
    assert_eq!(gone.side(), Side::Buy);
    // what is left: 120 / 1200 + 0.00002
    assert_eq!(acc.margin().order_margin(), dec("0.10002"));
    assert_eq!(acc.active_limit_orders().len(), 1);
    identity_holds(&acc);
    assert_eq!(acc.cancel_order(1), None);
    assert_eq!(acc.cancel_order(2).unwrap().id(), 2);
    assert_eq!(acc.margin().order_margin(), dec("0"));
    assert_eq!(acc.available_balance(), dec("1"));
    identity_holds(&acc);
}

#[test]
fn changing_the_position_opens_enlarges_reduces_and_turns() {
    let mut acc = inverse_account();
    // open
    assert_eq!(
        acc.change_position(Side::Buy, dec("400"), quote("1000")),
        dec("0")
    );
    assert_eq!(acc.position().size(), dec("400"));
    assert_eq!(acc.position().entry_price(), quote("1000"));
    assert_eq!(acc.margin().position_margin(), dec("0.4"));
    assert_eq!(acc.margin().wallet_balance(), dec("1"));
    identity_holds(&acc);
    // enlarge: entry (1000 * 400 + 2000 * 400) / 800, margin 0.4 + 400 / 2000
    assert_eq!(
        acc.change_position(Side::Buy, dec("400"), quote("2000")),
        dec("0")
    );
    assert_eq!(acc.position().size(), dec("800"));
    assert_eq!(acc.position().entry_price(), quote("1500"));
    assert_eq!(acc.margin().position_margin(), dec("0.6"));
    identity_holds(&acc);
    // reduce: profit 200 / 1500 - 200 / 3000, margin 600 / 1500
    assert_eq!(
        acc.change_position(Side::Sell, dec("200"), quote("3000")),
        dec("0.06666666")
    );
    assert_eq!(acc.position().size(), dec("600"));
    assert_eq!(acc.position().entry_price(), quote("1500"));
    assert_eq!(acc.margin().position_margin(), dec("0.4"));
    assert_eq!(acc.margin().wallet_balance(), dec("1.06666666"));
    identity_holds(&acc);
    // turn: close 600 at 750 with 600 / 1500 - 600 / 750, open a short of 150
    assert_eq!(
        acc.change_position(Side::Sell, dec("750"), quote("750")),
        dec("-0.4")
    );
    assert_eq!(acc.position().size(), dec("-150"));
    assert_eq!(acc.position().entry_price(), quote("750"));
    assert_eq!(acc.margin().position_margin(), dec("0.2"));
    assert_eq!(acc.margin().wallet_balance(), dec("0.66666666"));
    identity_holds(&acc);
    // close the short exactly
    assert_eq!(
        acc.change_position(Side::Buy, dec("150"), quote("750")),
        dec("0")
    );
    assert_eq!(acc.position().size(), dec("0"));
    assert_eq!(acc.position().entry_price(), quote("750"));
    assert_eq!(acc.margin().position_margin(), dec("0"));
    identity_holds(&acc);
}

#[test]
fn the_order_margin_follows_the_position() {
    let mut acc = inverse_account();
    rest(&mut acc, limit(1, Side::Sell, "1000", "500"));
    assert_eq!(acc.margin().order_margin(), dec("0.5001"));
    // a long of 200 takes 200 of the 500 off
    acc.change_position(Side::Buy, dec("200"), quote("1000"));
    assert_eq!(acc.margin().order_margin(), dec("0.3001"));
    assert_eq!(acc.margin().position_margin(), dec("0.2"));
    identity_holds(&acc);
    // back to flat
    acc.change_position(Side::Sell, dec("200"), quote("1000"));
    assert_eq!(acc.margin().order_margin(), dec("0.5001"));
    identity_holds(&acc);
}

#[test]
fn settling_a_fill_charges_the_fee_and_moves_the_margin() {
    let mut acc = inverse_account();
    let o = limit(1, Side::Buy, "900", "450");
    rest(&mut acc, o);
    let outcome = acc.settle_filled_order(o, quote("900"), true);
    assert_eq!(outcome.fee, dec("0.0001"));
    assert_eq!(outcome.realized_pnl, dec("0"));
    assert_eq!(acc.active_limit_orders().len(), 0);
    assert_eq!(acc.position().size(), dec("450"));
    assert_eq!(acc.position().entry_price(), quote("900"));
    assert_eq!(acc.margin().wallet_balance(), dec("0.9999"));
    assert_eq!(acc.margin().position_margin(), dec("0.5"));
    assert_eq!(acc.margin().order_margin(), dec("0"));
    assert_eq!(acc.available_balance(), dec("0.4999"));
    identity_holds(&acc);
    // a market sell of all of it at 1000, at the taker fee
    let mut close = Order::market(Side::Sell, dec("450")).unwrap();
    close.set_id(2);
    let outcome = acc.settle_filled_order(close, quote("1000"), false);
    // 450 * 0.0006 / 1000
    assert_eq!(outcome.fee, dec("0.00027"));
    // 450 / 900 - 450 / 1000
    assert_eq!(outcome.realized_pnl, dec("0.05"));
    assert_eq!(acc.position().size(), dec("0"));
    assert_eq!(acc.margin().wallet_balance(), dec("1.04963"));
    assert_eq!(acc.available_balance(), dec("1.04963"));
    identity_holds(&acc);
}

#[test]
fn what_cannot_be_represented_is_found_before_it_is_done() {
    let acc = Account::new(
        lev("1"),
        dec("1"),
        FuturesType::Linear,
        fee("0.0002"),
        fee("0.0006"),
    );
    assert!(acc.change_position_representable(Side::Buy, dec("2"), quote("100")));
    // 9000000 * 90000000 outgrows a decimal
    assert!(!acc.change_position_representable(
        Side::Buy,
        dec("9000000"),
        quote("90000000")
    ));
    let mut o = Order::market(Side::Buy, dec("2")).unwrap();
    o.set_id(1);
    assert!(acc.settle_representable(&o, quote("100"), false));
    let mut large = Order::market(Side::Buy, dec("9000000")).unwrap();
    large.set_id(2);
    assert!(!acc.settle_representable(&large, quote("90000000"), false));
    let copy = acc.copy();
    assert_eq!(copy.margin(), acc.margin());
    assert_eq!(copy.position(), acc.position());
    assert_eq!(copy.active_limit_orders(), acc.active_limit_orders());
}

#[test]
fn lists_of_orders_stay_in_order_of_identifier() {
    let mut orders: Vec<Order> = Vec::new();
    for id in [5u64, 1, 9, 3] {
        insert_sorted(&mut orders, limit(id, Side::Buy, "100", "1"));
    }
    let ids: Vec<u64> = orders.iter().map(|o| o.id()).collect();
    assert_eq!(ids, vec![1, 3, 5, 9]);
    assert_eq!(find_by_id(&orders, 5), Some(2));
    assert_eq!(find_by_id(&orders, 4), None);
    let copy = copy_orders(&orders);
    assert_eq!(copy, orders);
    assert_eq!(remove_by_id(&mut orders, 3).unwrap().id(), 3);
    assert_eq!(remove_by_id(&mut orders, 3), None);
    let ids: Vec<u64> = orders.iter().map(|o| o.id()).collect();
    assert_eq!(ids, vec![1, 5, 9]);
    assert_eq!(copy.len(), 4);
}

#[test]
fn an_order_takes_the_place_of_one_with_its_identifier() {
    let mut acc = inverse_account();
    rest(&mut acc, limit(1, Side::Buy, "1000", "100"));
    // with fees: 0.1 + 0.00002
    assert_eq!(acc.margin().order_margin(), dec("0.10002"));
    let v = validator();
    // the same identifier with three times the size: 0.3 + 0.00006 in all
    let bigger = limit(1, Side::Buy, "1000", "300");
    assert_eq!(v.limit_order_margin_cost(&bigger, &acc), dec("0.20004"));
    // another identifier: 0.4 + 0.00008 in all
    let other = limit(2, Side::Buy, "1000", "300");
    assert_eq!(v.limit_order_margin_cost(&other, &acc), dec("0.30006"));
}
