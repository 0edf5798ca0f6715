use trading_backend::models::{SignalType, TradeType};

#[test]
fn signal_labels_match_the_wire_format() {
    assert_eq!(SignalType::Buy.label(), "buy");
    assert_eq!(SignalType::Sell.label(), "sell");
    assert_eq!(SignalType::Hold.label(), "hold");
}

#[test]
fn trade_labels_match_the_wire_format() {
    assert_eq!(TradeType::Buy.label(), "buy");
    assert_eq!(TradeType::Sell.label(), "sell");
}
