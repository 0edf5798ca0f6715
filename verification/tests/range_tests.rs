use trading_backend::api::models::OhlcDateRangeRequest;
use trading_backend::api::ohlc_api::get_ohlc_by_date_range;
use trading_backend::entity::{ohlc_data, symbol};
use trading_backend::services::ohlc_service::get_ohlc_data_by_date_range;
use trading_backend::store::Store;
use trading_backend::timestamp::Timestamp;

fn at(minute: u8) -> Timestamp {
    Timestamp { year: 2024, month: 5, day: 20, hour: 9, minute, second: 0 }
}

fn plain_symbol(code: &str) -> symbol::Model {
    symbol::Model {
        id: 0,
        symbol: String::from(code),
        name: String::from(code),
        symbol_type: String::from("stock"),
        exchange: String::from("NYSE"),
        base_currency: None,
        quote_currency: None,
        lot_size: None,
        tick_size: None,
        created_at: at(0),
        updated_at: at(0),
    }
}

fn plain_bar(symbol_id: i32, when: Timestamp, open: f64) -> ohlc_data::Model {
    ohlc_data::Model {
        id: 0,
        symbol_id,
        timestamp: when,
        open: open.to_bits(),
        high: (open + 1.0).to_bits(),
        low: (open - 1.0).to_bits(),
        close: open.to_bits(),
        volume: None,
        created_at: at(0),
    }
}

fn store_with_four_bars() -> (Store, i32) {
    let mut store = Store::new();
    let sid = store.insert_symbol(plain_symbol("X")).unwrap();
    // inserted out of order on purpose: the range query must sort
    store.insert_ohlc_bar(plain_bar(sid, at(3), 103.0)).unwrap();
    store.insert_ohlc_bar(plain_bar(sid, at(1), 101.0)).unwrap();
    store.insert_ohlc_bar(plain_bar(sid, at(4), 104.0)).unwrap();
    store.insert_ohlc_bar(plain_bar(sid, at(2), 102.0)).unwrap();
    (store, sid)
}

#[test]
fn range_is_inclusive_and_ascending() {
    let (store, _) = store_with_four_bars();
    let got = get_ohlc_data_by_date_range(&store, "X", at(2), at(3));
    assert_eq!(got.len(), 2);
    assert_eq!(got[0].timestamp, at(2));
    assert_eq!(got[1].timestamp, at(3));
}

#[test]
fn full_range_is_sorted_ascending() {
    let (store, _) = store_with_four_bars();
    let got = get_ohlc_data_by_date_range(&store, "X", at(1), at(4));
    assert_eq!(got.len(), 4);
    for (i, bar) in got.iter().enumerate() {
        assert_eq!(bar.timestamp, at(1 + i as u8));
        assert_eq!(f64::from_bits(bar.open), 101.0 + i as f64);
    }
}

#[test]
fn reversed_range_is_empty_not_an_error() {
    let (store, _) = store_with_four_bars();
    let got = get_ohlc_data_by_date_range(&store, "X", at(3), at(2));
    assert!(got.is_empty());
}

#[test]
fn single_instant_range_returns_one_bar() {
    let (store, _) = store_with_four_bars();
    let got = get_ohlc_data_by_date_range(&store, "X", at(2), at(2));
    assert_eq!(got.len(), 1);
    assert_eq!(got[0].timestamp, at(2));
}

#[test]
fn range_of_unknown_symbol_is_empty() {
    let (store, _) = store_with_four_bars();
    let got = get_ohlc_data_by_date_range(&store, "NOSUCH", at(1), at(4));
    assert!(got.is_empty());
}

#[test]
fn range_ignores_other_symbols() {
    let (mut store, _) = store_with_four_bars();
    let other = store.insert_symbol(plain_symbol("Y")).unwrap();
    store.insert_ohlc_bar(plain_bar(other, at(2), 900.0)).unwrap();
    let got = get_ohlc_data_by_date_range(&store, "X", at(2), at(3));
    assert_eq!(got.len(), 2);
    assert_eq!(f64::from_bits(got[0].open), 102.0);
}

#[test]
fn range_envelope_success() {
    let (store, _) = store_with_four_bars();
    let params = OhlcDateRangeRequest {
        start: String::from("2024-05-20 09:02:00"),
        end: String::from("2024-05-20 09:03:00"),
    };
    let envelope = get_ohlc_by_date_range(&store, "X", &params);
    assert_eq!(envelope.code, 0);
    assert_eq!(envelope.message, "Success");
    let data = envelope.data.unwrap().data;
    assert_eq!(data.len(), 2);
    assert_eq!(data[0].timestamp, at(2));
    assert_eq!(data[1].timestamp, at(3));
}

#[test]
fn range_envelope_rejects_bad_start() {
    let (store, _) = store_with_four_bars();
    let params = OhlcDateRangeRequest {
        start: String::from("2024-13-40 99:99:99"),
        end: String::from("2024-05-20 09:03:00"),
    };
    let envelope = get_ohlc_by_date_range(&store, "X", &params);
    assert_eq!(envelope.code, 40002);
    assert!(envelope.data.is_none());
    assert_eq!(
        envelope.message,
        "Invalid date format for start '2024-13-40 99:99:99'"
    );
}

#[test]
fn range_envelope_rejects_bad_end() {
    let (store, _) = store_with_four_bars();
    let params = OhlcDateRangeRequest {
        start: String::from("2024-05-20 09:02:00"),
        end: String::from("never"),
    };
    let envelope = get_ohlc_by_date_range(&store, "X", &params);
    assert_eq!(envelope.code, 40002);
    assert!(envelope.data.is_none());
    assert_eq!(envelope.message, "Invalid date format for end 'never'");
}

#[test]
fn range_envelope_reversed_range_is_success() {
    let (store, _) = store_with_four_bars();
    let params = OhlcDateRangeRequest {
        start: String::from("2024-05-20 09:03:00"),
        end: String::from("2024-05-20 09:02:00"),
    };
    let envelope = get_ohlc_by_date_range(&store, "X", &params);
    assert_eq!(envelope.code, 0);
    assert!(envelope.data.unwrap().data.is_empty());
}
