use stock_market::message::TradeKind;
use stock_market::pricing::{buy_price_for, move_price};
use stock_market::table::{integer_text, price_text_of};

#[test]
fn buy_price_is_marked_up_and_rounded_down() {
    assert_eq!(buy_price_for(2500, 120), 3000);
    assert_eq!(buy_price_for(999, 120), 1198);
    assert_eq!(buy_price_for(7, 100), 7);
    assert_eq!(buy_price_for(u32::MAX, 120), (u32::MAX as u64) * 120 / 100);
}

#[test]
fn price_moves_by_basis_points() {
    assert_eq!(move_price(10000, 500), 10500);
    assert_eq!(move_price(10000, -500), 9500);
    assert_eq!(move_price(10000, 0), 10000);
    assert_eq!(move_price(199, 499), 208);
    assert_eq!(move_price(199, -499), 190);
}

#[test]
fn price_moves_are_clamped() {
    assert_eq!(move_price(1, -10000), 1);
    assert_eq!(move_price(5000, i32::MIN), 1);
    assert_eq!(move_price(u32::MAX, 500), u32::MAX);
    assert_eq!(move_price(40000, i32::MAX), u32::MAX);
    assert_eq!(move_price(4000, i32::MAX), 858997458);
}

#[test]
fn action_names_are_read() {
    assert_eq!(TradeKind::parse(&"buy".to_string()), Some(TradeKind::Buy));
    assert_eq!(TradeKind::parse(&"sell".to_string()), Some(TradeKind::Sell));
    assert_eq!(TradeKind::parse(&"Buy".to_string()), None);
    assert_eq!(TradeKind::parse(&"".to_string()), None);
}

#[test]
fn whole_numbers_are_written_in_decimal() {
    assert_eq!(integer_text(0), "0");
    assert_eq!(integer_text(7), "7");
    assert_eq!(integer_text(10), "10");
    assert_eq!(integer_text(1234567), "1234567");
    assert_eq!(integer_text(u64::MAX), "18446744073709551615");
}

#[test]
fn prices_are_written_in_whole_units() {
    assert_eq!(price_text_of(1234), "12.34");
    assert_eq!(price_text_of(5), "0.05");
    assert_eq!(price_text_of(100), "1.00");
    assert_eq!(price_text_of(0), "0.00");
    assert_eq!(price_text_of(180090), "1800.90");
}
