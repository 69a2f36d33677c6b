use lfest::currency::{
    checked_fee_amount, checked_margin_amount, checked_notional, checked_pnl, fee_amount,
    margin_amount, notional, pnl, BaseCurrency, Fee, Leverage, QuoteCurrency,
};
use lfest::decimal::Decimal;
use lfest::side::FuturesType;

fn dec(text: &str) -> Decimal {
    Decimal::parse(text).unwrap()
}

fn quote(text: &str) -> QuoteCurrency {
    QuoteCurrency::new(dec(text))
}

fn base(text: &str) -> BaseCurrency {
    BaseCurrency::new(dec(text))
}

#[test]
fn base_converts_to_quote_by_multiplying() {
    assert_eq!(base("0.8").convert(quote("1000")), quote("800"));
    assert_eq!(base("-0.5").convert(quote("100.5")), quote("-50.25"));
}

#[test]
fn quote_converts_to_base_by_dividing() {
    assert_eq!(quote("800").convert(quote("1000")), base("0.8"));
    assert_eq!(quote("0.48").convert(quote("1000")), base("0.00048"));
    assert_eq!(quote("1").convert(quote("3")), base("0.33333333"));
}

#[test]
fn typed_amounts_add_subtract_and_negate() {
    assert_eq!(quote("1.5").add(quote("2.25")), quote("3.75"));
    assert_eq!(quote("1.5").sub(quote("2.25")), quote("-0.75"));
    assert_eq!(base("1.5").add(base("2.25")), base("3.75"));
    assert_eq!(base("1.5").sub(base("2.25")), base("-0.75"));
    assert_eq!(quote("-2").abs(), quote("2"));
    assert_eq!(base("-2").abs(), base("2"));
    assert_eq!(quote("2").into_negative(), quote("-2"));
    assert_eq!(base("2").into_negative(), base("-2"));
    assert!(QuoteCurrency::new_zero().is_zero());
    assert!(BaseCurrency::new_zero().is_zero());
    assert!(!quote("0.1").is_zero());
    assert_eq!(quote("7").inner(), dec("7"));
    assert_eq!(base("7").inner(), dec("7"));
}

#[test]
fn fee_portion_is_the_rate_times_the_amount() {
    let rate = Fee::new(dec("0.0006")).unwrap();
    assert_eq!(quote("800").fee_portion(rate), quote("0.48"));
    assert_eq!(base("2").fee_portion(rate), base("0.0012"));
}

#[test]
fn fee_rates_lie_between_zero_and_one() {
    assert!(Fee::new(dec("0")).is_some());
    assert!(Fee::new(dec("1")).is_some());
    assert!(Fee::new(dec("0.0002")).is_some());
    assert!(Fee::new(dec("-0.0001")).is_none());
    assert!(Fee::new(dec("1.00000001")).is_none());
    assert_eq!(Fee::new(dec("0.0002")).unwrap().inner(), dec("0.0002"));
}

#[test]
fn leverage_is_at_least_one() {
    assert!(Leverage::new(dec("1")).is_some());
    assert!(Leverage::new(dec("125")).is_some());
    assert!(Leverage::new(dec("0.99999999")).is_none());
    assert!(Leverage::new(dec("0")).is_none());
    assert!(Leverage::new(dec("-3")).is_none());
    assert_eq!(Leverage::new(dec("5")).unwrap().inner(), dec("5"));
}

#[test]
fn notional_multiplies_for_linear_and_divides_for_inverse() {
    assert_eq!(
        notional(FuturesType::Linear, dec("9.9"), quote("100")),
        dec("990")
    );
    assert_eq!(
        notional(FuturesType::Inverse, dec("450"), quote("900")),
        dec("0.5")
    );
    assert_eq!(
        checked_notional(FuturesType::Linear, dec("9.9"), quote("100")),
        Some(dec("990"))
    );
    assert_eq!(
        checked_notional(FuturesType::Linear, dec("9000000"), quote("90000000")),
        None
    );
    assert_eq!(
        checked_notional(FuturesType::Inverse, dec("9000000"), quote("0.00000001")),
        None
    );
}

#[test]
fn linear_profit_is_the_price_difference_times_the_quantity() {
    assert_eq!(
        pnl(FuturesType::Linear, quote("100"), quote("110"), dec("2")),
        dec("20")
    );
    assert_eq!(
        pnl(FuturesType::Linear, quote("100"), quote("90"), dec("2")),
        dec("-20")
    );
    // a short gains when the price falls
    assert_eq!(
        pnl(FuturesType::Linear, quote("100"), quote("90"), dec("-2")),
        dec("20")
    );
    assert_eq!(
        pnl(FuturesType::Linear, quote("100"), quote("110"), dec("0")),
        dec("0")
    );
}

#[test]
fn inverse_profit_is_the_quantity_times_the_difference_of_reciprocals() {
    assert_eq!(
        pnl(FuturesType::Inverse, quote("1000"), quote("2000"), dec("800")),
        dec("0.4")
    );
    assert_eq!(
        pnl(FuturesType::Inverse, quote("1000"), quote("400"), dec("800")),
        dec("-1.2")
    );
    assert_eq!(
        pnl(FuturesType::Inverse, quote("1000"), quote("800"), dec("-800")),
        dec("0.2")
    );
    assert_eq!(
        pnl(FuturesType::Inverse, quote("900"), quote("1000"), dec("450")),
        dec("0.05")
    );
    assert_eq!(
        checked_pnl(FuturesType::Inverse, quote("1000"), quote("2000"), dec("800")),
        Some(dec("0.4"))
    );
    assert_eq!(
        checked_pnl(
            FuturesType::Inverse,
            quote("0.00000001"),
            quote("2000"),
            dec("800000")
        ),
        None
    );
    assert_eq!(
        checked_pnl(
            FuturesType::Linear,
            quote("1"),
            quote("90000000000"),
            dec("2")
        ),
        None
    );
}

#[test]
fn fees_are_the_share_of_the_size_valued_at_the_price() {
    let taker = Fee::new(dec("0.0006")).unwrap();
    let maker = Fee::new(dec("0.0002")).unwrap();
    assert_eq!(
        fee_amount(FuturesType::Inverse, dec("800"), taker, quote("1000")),
        dec("0.00048")
    );
    assert_eq!(
        fee_amount(FuturesType::Inverse, dec("450"), maker, quote("900")),
        dec("0.0001")
    );
    assert_eq!(
        fee_amount(FuturesType::Linear, dec("9.9"), maker, quote("100")),
        dec("0.198")
    );
    assert_eq!(
        checked_fee_amount(FuturesType::Linear, dec("9.9"), maker, quote("100")),
        Some(dec("0.198"))
    );
    assert_eq!(
        checked_fee_amount(
            FuturesType::Inverse,
            dec("90000000000"),
            Fee::new(dec("1")).unwrap(),
            quote("0.5")
        ),
        None
    );
}

#[test]
fn margin_is_the_notional_over_the_leverage() {
    let five = Leverage::new(dec("5")).unwrap();
    let three = Leverage::new(dec("3")).unwrap();
    assert_eq!(
        margin_amount(FuturesType::Linear, dec("2.5"), quote("100"), five),
        dec("50")
    );
    assert_eq!(
        margin_amount(FuturesType::Inverse, dec("250"), quote("100"), five),
        dec("0.5")
    );
    assert_eq!(
        margin_amount(FuturesType::Inverse, dec("100"), quote("100"), three),
        dec("0.33333333")
    );
    assert_eq!(
        checked_margin_amount(FuturesType::Linear, dec("2.5"), quote("100"), five),
        Some(dec("50"))
    );
    assert_eq!(
        checked_margin_amount(FuturesType::Linear, dec("9000000"), quote("90000000"), five),
        None
    );
}
