use trading_backend::api::models::ApiError;
use trading_backend::api::ohlc_api::{get_all_ohlc, get_ohlc_by_symbol};
use trading_backend::entity::{backtest_result, indicator_data, ohlc_data, symbol, trade_record, trading_signal};
use trading_backend::services::ohlc_service::{get_all_ohlc_data, get_ohlc_data_by_code};
use trading_backend::store::Store;
use trading_backend::timestamp::Timestamp;

fn ts(year: u16, month: u8, day: u8, hour: u8, minute: u8, second: u8) -> Timestamp {
    Timestamp { year, month, day, hour, minute, second }
}

fn symbol_row(code: &str) -> symbol::Model {
    symbol::Model {
        id: 0,
        symbol: String::from(code),
        name: format!("{} name", code),
        symbol_type: String::from("stock"),
        exchange: String::from("NASDAQ"),
        base_currency: None,
        quote_currency: Some(String::from("USD")),
        lot_size: Some(1.0f64.to_bits()),
        tick_size: Some(0.01f64.to_bits()),
        created_at: ts(2024, 1, 1, 0, 0, 0),
        updated_at: ts(2024, 1, 1, 0, 0, 0),
    }
}

fn bar_row(symbol_id: i32, at: Timestamp, open: f64, close: f64) -> ohlc_data::Model {
    ohlc_data::Model {
        id: 0,
        symbol_id,
        timestamp: at,
        open: open.to_bits(),
        high: (open.max(close) + 1.0).to_bits(),
        low: (open.min(close) - 1.0).to_bits(),
        close: close.to_bits(),
        volume: Some(1000.0f64.to_bits()),
        created_at: ts(2024, 1, 1, 0, 0, 0),
    }
}

fn indicator_row(symbol_id: i32, at: Timestamp) -> indicator_data::Model {
    indicator_data::Model {
        id: 0,
        symbol_id,
        timestamp: at,
        ma_short: Some(10.5f64.to_bits()),
        ma_medium: None,
        ma_long: None,
        rsi: Some(55.0f64.to_bits()),
        macd: None,
        macd_signal: None,
        macd_histogram: None,
        bollinger_middle: None,
        bollinger_upper: None,
        bollinger_lower: None,
        created_at: at,
        updated_at: at,
    }
}

fn signal_row(symbol_id: i32, at: Timestamp) -> trading_signal::Model {
    trading_signal::Model {
        id: 0,
        symbol_id,
        timestamp: at,
        signal_type: String::from("buy"),
        source: String::from("ma-cross"),
        price: 101.5f64.to_bits(),
        created_at: at,
        updated_at: at,
    }
}

fn backtest_row(id: &str, symbol_id: i32) -> backtest_result::Model {
    backtest_result::Model {
        id: String::from(id),
        symbol_id,
        timeframe: String::from("1d"),
        start_date: ts(2024, 1, 1, 0, 0, 0),
        end_date: ts(2024, 6, 1, 0, 0, 0),
        initial_capital: 10000.0f64.to_bits(),
        final_capital: 11000.0f64.to_bits(),
        total_return: 0.1f64.to_bits(),
        annual_return: 0.2f64.to_bits(),
        max_drawdown: 0.05f64.to_bits(),
        sharpe_ratio: 1.3f64.to_bits(),
        trade_count: 2,
        winning_trades: 1,
        losing_trades: 1,
        win_rate: 0.5f64.to_bits(),
        average_win: 600.0f64.to_bits(),
        average_loss: 300.0f64.to_bits(),
        profit_factor: 2.0f64.to_bits(),
        created_at: ts(2024, 6, 1, 0, 0, 0),
        updated_at: ts(2024, 6, 1, 0, 0, 0),
    }
}

fn trade_row(id: &str, backtest_id: &str, at: Timestamp) -> trade_record::Model {
    trade_record::Model {
        id: String::from(id),
        backtest_result_id: String::from(backtest_id),
        timestamp: at,
        trade_type: String::from("buy"),
        price: 100.0f64.to_bits(),
        quantity: 10.0f64.to_bits(),
        amount: 1000.0f64.to_bits(),
        fee: 1.0f64.to_bits(),
        remaining_capital: 9000.0f64.to_bits(),
        position: 10.0f64.to_bits(),
        created_at: at,
        updated_at: at,
    }
}

#[test]
fn symbol_ids_are_assigned_in_order() {
    let mut store = Store::new();
    let a = store.insert_symbol(symbol_row("AAPL")).unwrap();
    let b = store.insert_symbol(symbol_row("MSFT")).unwrap();
    assert_eq!(a, 1);
    assert_eq!(b, 2);
    assert_eq!(store.symbols.len(), 2);
}

#[test]
fn duplicate_symbol_code_fails() {
    let mut store = Store::new();
    store.insert_symbol(symbol_row("AAPL")).unwrap();
    let r = store.insert_symbol(symbol_row("AAPL"));
    assert_eq!(r, Err(ApiError::DatabaseError));
    assert_eq!(store.symbols.len(), 1);
}

#[test]
fn duplicate_bar_slot_fails_and_changes_nothing() {
    let mut store = Store::new();
    let sid = store.insert_symbol(symbol_row("AAPL")).unwrap();
    let at = ts(2024, 5, 20, 9, 30, 0);
    store.insert_ohlc_bar(bar_row(sid, at, 100.0, 101.0)).unwrap();
    let before = store.ohlc_bars.clone();
    let r = store.insert_ohlc_bar(bar_row(sid, at, 200.0, 201.0));
    assert_eq!(r, Err(ApiError::DatabaseError));
    assert_eq!(store.ohlc_bars, before);
    assert_eq!(get_ohlc_data_by_code(&store, "AAPL").len(), 1);
}

#[test]
fn bar_for_unknown_symbol_fails() {
    let mut store = Store::new();
    let r = store.insert_ohlc_bar(bar_row(42, ts(2024, 5, 20, 9, 30, 0), 100.0, 101.0));
    assert_eq!(r, Err(ApiError::DatabaseError));
    assert!(store.ohlc_bars.is_empty());
}

#[test]
fn round_trip_preserves_bits() {
    let mut store = Store::new();
    let sid = store.insert_symbol(symbol_row("AAPL")).unwrap();
    let at = ts(2024, 5, 20, 9, 30, 0);
    let row = ohlc_data::Model {
        id: 0,
        symbol_id: sid,
        timestamp: at,
        open: 100.0f64.to_bits(),
        high: 105.0f64.to_bits(),
        low: 99.5f64.to_bits(),
        close: 102.25f64.to_bits(),
        volume: Some(1000.0f64.to_bits()),
        created_at: at,
    };
    store.insert_ohlc_bar(row).unwrap();
    let got = get_ohlc_data_by_code(&store, "AAPL");
    assert_eq!(got.len(), 1);
    let bar = &got[0];
    assert_eq!(f64::from_bits(bar.open), 100.0);
    assert_eq!(f64::from_bits(bar.high), 105.0);
    assert_eq!(f64::from_bits(bar.low), 99.5);
    assert_eq!(f64::from_bits(bar.close), 102.25);
    assert_eq!(bar.volume.map(f64::from_bits), Some(1000.0));
    assert_eq!(bar.timestamp, at);
    assert_eq!(bar.symbol_id, sid);
}

#[test]
fn unknown_symbol_queries_are_empty_successes() {
    let mut store = Store::new();
    let sid = store.insert_symbol(symbol_row("AAPL")).unwrap();
    store
        .insert_ohlc_bar(bar_row(sid, ts(2024, 5, 20, 9, 30, 0), 100.0, 101.0))
        .unwrap();
    assert!(get_ohlc_data_by_code(&store, "NOSUCH").is_empty());
    let envelope = get_ohlc_by_symbol(&store, "NOSUCH");
    assert_eq!(envelope.code, 0);
    assert_eq!(envelope.message, "Success");
    assert!(envelope.data.unwrap().data.is_empty());
}

#[test]
fn list_all_returns_every_bar() {
    let mut store = Store::new();
    let a = store.insert_symbol(symbol_row("AAPL")).unwrap();
    let b = store.insert_symbol(symbol_row("MSFT")).unwrap();
    store.insert_ohlc_bar(bar_row(a, ts(2024, 5, 20, 9, 30, 0), 100.0, 101.0)).unwrap();
    store.insert_ohlc_bar(bar_row(b, ts(2024, 5, 20, 9, 30, 0), 50.0, 51.0)).unwrap();
    store.insert_ohlc_bar(bar_row(a, ts(2024, 5, 20, 9, 31, 0), 101.0, 102.0)).unwrap();
    assert_eq!(get_all_ohlc_data(&store).len(), 3);
    let envelope = get_all_ohlc(&store);
    assert_eq!(envelope.code, 0);
    assert_eq!(envelope.data.unwrap().data.len(), 3);
}

#[test]
fn case_sensitive_symbol_match() {
    let mut store = Store::new();
    let sid = store.insert_symbol(symbol_row("AAPL")).unwrap();
    store
        .insert_ohlc_bar(bar_row(sid, ts(2024, 5, 20, 9, 30, 0), 100.0, 101.0))
        .unwrap();
    assert!(get_ohlc_data_by_code(&store, "aapl").is_empty());
    assert_eq!(get_ohlc_data_by_code(&store, "AAPL").len(), 1);
}

#[test]
fn deleting_symbol_cascades_to_everything_it_owns() {
    let mut store = Store::new();
    let a = store.insert_symbol(symbol_row("AAPL")).unwrap();
    let b = store.insert_symbol(symbol_row("MSFT")).unwrap();
    let at1 = ts(2024, 5, 20, 9, 30, 0);
    let at2 = ts(2024, 5, 20, 9, 31, 0);
    store.insert_ohlc_bar(bar_row(a, at1, 100.0, 101.0)).unwrap();
    store.insert_ohlc_bar(bar_row(a, at2, 101.0, 102.0)).unwrap();
    store.insert_ohlc_bar(bar_row(b, at1, 50.0, 51.0)).unwrap();
    store.insert_indicator(indicator_row(a, at1)).unwrap();
    store.insert_indicator(indicator_row(b, at1)).unwrap();
    store.insert_signal(signal_row(a, at1)).unwrap();
    store.insert_signal(signal_row(b, at1)).unwrap();
    store.insert_backtest(backtest_row("bt-a", a)).unwrap();
    store.insert_backtest(backtest_row("bt-b", b)).unwrap();
    store.insert_trade(trade_row("tr-a1", "bt-a", at1)).unwrap();
    store.insert_trade(trade_row("tr-a2", "bt-a", at2)).unwrap();
    store.insert_trade(trade_row("tr-b1", "bt-b", at1)).unwrap();

    let found = store.delete_symbol(a);
    assert!(found);
    assert_eq!(store.symbols.len(), 1);
    assert_eq!(store.symbols[0].symbol, "MSFT");
    assert_eq!(store.ohlc_bars.len(), 1);
    assert_eq!(store.ohlc_bars[0].symbol_id, b);
    assert_eq!(store.indicators.len(), 1);
    assert_eq!(store.indicators[0].symbol_id, b);
    assert_eq!(store.signals.len(), 1);
    assert_eq!(store.signals[0].symbol_id, b);
    assert_eq!(store.backtests.len(), 1);
    assert_eq!(store.backtests[0].id, "bt-b");
    assert_eq!(store.trades.len(), 1);
    assert_eq!(store.trades[0].id, "tr-b1");

    assert!(get_ohlc_data_by_code(&store, "AAPL").is_empty());
    let envelope = get_ohlc_by_symbol(&store, "AAPL");
    assert_eq!(envelope.code, 0);
    assert!(envelope.data.unwrap().data.is_empty());
}

#[test]
fn deleting_unknown_symbol_is_a_noop() {
    let mut store = Store::new();
    store.insert_symbol(symbol_row("AAPL")).unwrap();
    let found = store.delete_symbol(99);
    assert!(!found);
    assert_eq!(store.symbols.len(), 1);
}

#[test]
fn deleting_backtest_cascades_to_trades() {
    let mut store = Store::new();
    let a = store.insert_symbol(symbol_row("AAPL")).unwrap();
    store.insert_backtest(backtest_row("bt-1", a)).unwrap();
    store.insert_backtest(backtest_row("bt-2", a)).unwrap();
    store.insert_trade(trade_row("tr-1", "bt-1", ts(2024, 5, 20, 9, 30, 0))).unwrap();
    store.insert_trade(trade_row("tr-2", "bt-2", ts(2024, 5, 20, 9, 30, 0))).unwrap();
    let found = store.delete_backtest("bt-1");
    assert!(found);
    assert_eq!(store.backtests.len(), 1);
    assert_eq!(store.trades.len(), 1);
    assert_eq!(store.trades[0].id, "tr-2");
}

#[test]
fn duplicate_backtest_id_fails() {
    let mut store = Store::new();
    let a = store.insert_symbol(symbol_row("AAPL")).unwrap();
    store.insert_backtest(backtest_row("bt-1", a)).unwrap();
    assert_eq!(store.insert_backtest(backtest_row("bt-1", a)), Err(ApiError::DatabaseError));
    assert_eq!(store.backtests.len(), 1);
}

#[test]
fn duplicate_trade_slot_fails() {
    let mut store = Store::new();
    let a = store.insert_symbol(symbol_row("AAPL")).unwrap();
    store.insert_backtest(backtest_row("bt-1", a)).unwrap();
    let at = ts(2024, 5, 20, 9, 30, 0);
    store.insert_trade(trade_row("tr-1", "bt-1", at)).unwrap();
    assert_eq!(
        store.insert_trade(trade_row("tr-2", "bt-1", at)),
        Err(ApiError::DatabaseError)
    );
    assert_eq!(
        store.insert_trade(trade_row("tr-1", "bt-1", ts(2024, 5, 20, 9, 31, 0))),
        Err(ApiError::DatabaseError)
    );
    assert_eq!(store.trades.len(), 1);
}

#[test]
fn trade_for_unknown_backtest_fails() {
    let mut store = Store::new();
    store.insert_symbol(symbol_row("AAPL")).unwrap();
    let r = store.insert_trade(trade_row("tr-1", "bt-none", ts(2024, 5, 20, 9, 30, 0)));
    assert_eq!(r, Err(ApiError::DatabaseError));
}

#[test]
fn duplicate_indicator_and_signal_slots_fail() {
    let mut store = Store::new();
    let a = store.insert_symbol(symbol_row("AAPL")).unwrap();
    let at = ts(2024, 5, 20, 9, 30, 0);
    store.insert_indicator(indicator_row(a, at)).unwrap();
    assert_eq!(store.insert_indicator(indicator_row(a, at)), Err(ApiError::DatabaseError));
    store.insert_signal(signal_row(a, at)).unwrap();
    assert_eq!(store.insert_signal(signal_row(a, at)), Err(ApiError::DatabaseError));
}
