use lfest::currency::{Leverage, QuoteCurrency};
use lfest::decimal::Decimal;
use lfest::errors::Error;
use lfest::position::{average_entry, Position};
use lfest::side::FuturesType;

fn dec(text: &str) -> Decimal {
    Decimal::parse(text).unwrap()
}

fn quote(text: &str) -> QuoteCurrency {
    QuoteCurrency::new(dec(text))
}

fn lev(text: &str) -> Leverage {
    Leverage::new(dec(text)).unwrap()
}

#[test]
fn a_new_position_is_flat() {
    let p = Position::new(lev("3"), FuturesType::Linear);
    assert_eq!(p.size(), dec("0"));
    assert_eq!(p.entry_price(), quote("0"));
    assert_eq!(p.position_margin(), dec("0"));
    assert_eq!(p.leverage(), lev("3"));
    assert_eq!(p.futures_type(), FuturesType::Linear);
    assert_eq!(p.unrealized_pnl(quote("100"), quote("101")), dec("0"));
}

#[test]
fn opening_needs_a_positive_price() {
    let mut p = Position::new(lev("1"), FuturesType::Inverse);
    assert_eq!(
        p.open_position(dec("800"), quote("0"), dec("0.8")),
        Err(Error::InvalidPrice)
    );
    assert_eq!(
        p.open_position(dec("800"), quote("-1"), dec("0.8")),
        Err(Error::InvalidPrice)
    );
    assert_eq!(p.size(), dec("0"));
    assert_eq!(p.entry_price(), quote("0"));
    assert_eq!(p.position_margin(), dec("0"));
    assert_eq!(
        p.open_position(dec("-800"), quote("1000"), dec("0.8")),
        Ok(())
    );
    assert_eq!(p.size(), dec("-800"));
    assert_eq!(p.entry_price(), quote("1000"));
    assert_eq!(p.position_margin(), dec("0.8"));
}

#[test]
fn increasing_a_long_averages_the_entry_price() {
    let mut p = Position::new(lev("1"), FuturesType::Linear);
    p.increase_long(dec("1"), quote("100"), dec("100"));
    assert_eq!(p.size(), dec("1"));
    assert_eq!(p.entry_price(), quote("100"));
    assert_eq!(p.position_margin(), dec("100"));
    p.increase_long(dec("3"), quote("120"), dec("360"));
    assert_eq!(p.size(), dec("4"));
    // (100 * 1 + 120 * 3) / 4
    assert_eq!(p.entry_price(), quote("115"));
    assert_eq!(p.position_margin(), dec("460"));
    p.increase_long(dec("2"), quote("100"), dec("200"));
    // (115 * 4 + 100 * 2) / 6 = 110
    assert_eq!(p.entry_price(), quote("110"));
    assert_eq!(p.size(), dec("6"));
}

#[test]
fn the_average_entry_price_is_rounded_half_to_even() {
    // (1 * 2 + 2 * 1) / 3 = 1.33333333...
    assert_eq!(
        average_entry(quote("1"), dec("2"), quote("2"), dec("1")),
        quote("1.33333333")
    );
    // (0.00000001 * 1 + 0.00000002 * 1) / 2 = 0.000000015
    assert_eq!(
        average_entry(quote("0.00000001"), dec("1"), quote("0.00000002"), dec("1")),
        quote("0.00000002")
    );
    assert_eq!(
        average_entry(quote("0"), dec("0"), quote("250.5"), dec("7")),
        quote("250.5")
    );
}

#[test]
fn decreasing_a_long_keeps_the_entry_and_derives_the_margin() {
    let mut p = Position::new(lev("2"), FuturesType::Linear);
    p.increase_long(dec("4"), quote("100"), dec("200"));
    let gain = p.decrease_long(dec("1"), quote("110"));
    assert_eq!(gain, dec("10"));
    assert_eq!(p.size(), dec("3"));
    assert_eq!(p.entry_price(), quote("100"));
    // 3 * 100 / 2
    assert_eq!(p.position_margin(), dec("150"));
    let loss = p.decrease_long(dec("3"), quote("90"));
    assert_eq!(loss, dec("-30"));
    assert_eq!(p.size(), dec("0"));
    assert_eq!(p.entry_price(), quote("100"));
    assert_eq!(p.position_margin(), dec("0"));
}

#[test]
fn increasing_a_short_averages_over_magnitudes() {
    let mut p = Position::new(lev("1"), FuturesType::Inverse);
    p.increase_short(dec("100"), quote("100"), dec("1"));
    assert_eq!(p.size(), dec("-100"));
    assert_eq!(p.entry_price(), quote("100"));
    p.increase_short(dec("300"), quote("120"), dec("2.5"));
    assert_eq!(p.size(), dec("-400"));
    // (100 * 100 + 120 * 300) / 400
    assert_eq!(p.entry_price(), quote("115"));
    assert_eq!(p.position_margin(), dec("3.5"));
}

#[test]
fn decreasing_a_short_realises_the_profit_of_a_short() {
    let mut p = Position::new(lev("1"), FuturesType::Inverse);
    p.increase_short(dec("800"), quote("1000"), dec("0.8"));
    let gain = p.decrease_short(dec("400"), quote("800"));
    // -400 / 1000 + 400 / 800
    assert_eq!(gain, Ok(dec("0.1")));
    assert_eq!(p.size(), dec("-400"));
    assert_eq!(p.entry_price(), quote("1000"));
    assert_eq!(p.position_margin(), dec("0.4"));
    let loss = p.decrease_short(dec("400"), quote("2000"));
    assert_eq!(loss, Ok(dec("-0.2")));
    assert_eq!(p.size(), dec("0"));
    assert_eq!(p.position_margin(), dec("0"));
}

#[test]
fn a_long_is_valued_at_the_bid_and_a_short_at_the_ask() {
    let mut long = Position::new(lev("1"), FuturesType::Linear);
    long.increase_long(dec("2"), quote("100"), dec("200"));
    assert_eq!(long.unrealized_pnl(quote("110"), quote("120")), dec("20"));
    let mut short = Position::new(lev("1"), FuturesType::Linear);
    short.increase_short(dec("2"), quote("100"), dec("200"));
    assert_eq!(short.unrealized_pnl(quote("70"), quote("80")), dec("40"));
    assert_eq!(short.unrealized_pnl(quote("110"), quote("120")), dec("-40"));
}

#[test]
fn implied_leverage_is_value_over_margin() {
    let mut p = Position::new(lev("5"), FuturesType::Linear);
    p.increase_long(dec("2"), quote("100"), dec("40"));
    assert_eq!(p.implied_leverage(quote("100")), dec("5"));
    assert_eq!(p.implied_leverage(quote("120")), dec("6"));
}

#[test]
fn variation_margin_moves_the_position_margin() {
    let mut p = Position::new(lev("5"), FuturesType::Linear);
    p.increase_long(dec("2"), quote("100"), dec("40"));
    p.deposit_variation_margin(dec("10"));
    assert_eq!(p.position_margin(), dec("50"));
    assert_eq!(p.size(), dec("2"));
    assert_eq!(p.entry_price(), quote("100"));
    assert_eq!(p.implied_leverage(quote("100")), dec("4"));
    p.release_variation_margin(dec("25"));
    assert_eq!(p.position_margin(), dec("25"));
    assert_eq!(p.implied_leverage(quote("100")), dec("8"));
}

#[test]
fn closing_in_full_undoes_the_opening() {
    for ft in [FuturesType::Linear, FuturesType::Inverse] {
        let mut p = Position::new(lev("3"), ft);
        p.open_position(dec("7"), quote("120"), dec("1")).unwrap();
        let realized = p.decrease_long(dec("7"), quote("90"));
        assert_eq!(p.size(), dec("0"));
        assert_eq!(p.position_margin(), dec("0"));
        assert_eq!(p.entry_price(), quote("120"));
        match ft {
            // 7 * (90 - 120)
            FuturesType::Linear => assert_eq!(realized, dec("-210")),
            // 7 / 120 - 7 / 90
            FuturesType::Inverse => assert_eq!(realized, dec("-0.01944445")),
        }
        let mut p = Position::new(lev("3"), ft);
        p.open_position(dec("-7"), quote("120"), dec("1")).unwrap();
        let realized = p.decrease_short(dec("7"), quote("90")).unwrap();
        assert_eq!(p.size(), dec("0"));
        assert_eq!(p.position_margin(), dec("0"));
        match ft {
            FuturesType::Linear => assert_eq!(realized, dec("210")),
            FuturesType::Inverse => assert_eq!(realized, dec("0.01944445")),
        }
    }
}

#[test]
fn what_a_position_cannot_hold_is_left_undone() {
    let mut p = Position::new(lev("1"), FuturesType::Inverse);
    assert!(p.try_increase_long(dec("8000"), quote("1000"), dec("8")));
    assert_eq!(p.size(), dec("8000"));
    assert_eq!(p.entry_price(), quote("1000"));
    assert_eq!(p.position_margin(), dec("8"));
    // the size would outgrow a decimal
    let before = p;
    assert!(!p.try_increase_long(dec("92233720000"), quote("1000"), dec("1")));
    assert_eq!(p, before);
    // 4000 / 0.00000001 cannot be represented
    assert_eq!(p.try_decrease_long(dec("4000"), quote("0.00000001")), None);
    assert_eq!(p, before);
    // 4000 / 1000 - 4000 / 800
    assert_eq!(p.try_decrease_long(dec("4000"), quote("800")), Some(dec("-1")));
    assert_eq!(p.size(), dec("4000"));
    assert_eq!(p.position_margin(), dec("4"));
    assert_eq!(p.try_decrease_long(dec("4000"), quote("2000")), Some(dec("2")));
    assert_eq!(p.size(), dec("0"));
    assert_eq!(p.position_margin(), dec("0"));

    let mut p = Position::new(lev("2"), FuturesType::Linear);
    assert!(p.try_increase_short(dec("3"), quote("100"), dec("150")));
    assert_eq!(p.size(), dec("-3"));
    assert_eq!(p.entry_price(), quote("100"));
    let before = p;
    assert!(!p.try_increase_short(dec("1"), quote("100"), dec("92233720300")));
    assert_eq!(p, before);
    // 3 * (100 - 90000000000) cannot be represented
    assert_eq!(p.try_decrease_short(dec("3"), quote("90000000000")), None);
    assert_eq!(p, before);
    assert_eq!(p.try_decrease_short(dec("1"), quote("110")), Some(dec("-10")));
    assert_eq!(p.size(), dec("-2"));
    // 2 * 100 / 2
    assert_eq!(p.position_margin(), dec("100"));
    assert_eq!(p.try_decrease_short(dec("2"), quote("90")), Some(dec("20")));
    assert_eq!(p.size(), dec("0"));
    assert_eq!(p.position_margin(), dec("0"));
}
