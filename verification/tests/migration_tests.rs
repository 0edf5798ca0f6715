use trading_backend::migration::create_tables;
use trading_backend::migration::{
    ColumnName, ColumnType, Migrator, SchemaState, TableName,
};

#[test]
fn up_creates_the_six_tables_in_order() {
    let mut state = SchemaState::new();
    assert!(Migrator::up(&mut state).is_ok());
    let names: Vec<TableName> = state.tables.iter().map(|t| t.name).collect();
    assert_eq!(
        names,
        vec![
            TableName::Symbol,
            TableName::OhlcData,
            TableName::IndicatorData,
            TableName::TradingSignal,
            TableName::BacktestResult,
            TableName::TradeRecord,
        ]
    );
}

#[test]
fn up_twice_is_idempotent() {
    let mut once = SchemaState::new();
    assert!(Migrator::up(&mut once).is_ok());
    let mut twice = SchemaState::new();
    assert!(Migrator::up(&mut twice).is_ok());
    let second_run = Migrator::up(&mut twice);
    assert!(second_run.is_ok());
    assert_eq!(once.tables, twice.tables);
}

#[test]
fn down_drops_every_table() {
    let mut state = SchemaState::new();
    assert!(Migrator::up(&mut state).is_ok());
    Migrator::down(&mut state);
    assert!(state.tables.is_empty());
}

#[test]
fn down_on_empty_store_is_a_noop() {
    let mut state = SchemaState::new();
    Migrator::down(&mut state);
    assert!(state.tables.is_empty());
}

#[test]
fn conflicting_table_definition_fails_closed() {
    // a store that already holds an incompatible symbol table: its first
    // column was created as text, not as an auto-incrementing integer
    let mut conflicting = create_tables::migration().tables;
    conflicting.truncate(1);
    conflicting[0].columns[0].col_type = ColumnType::Text;
    conflicting[0].columns[0].auto_increment = false;
    let mut state = SchemaState { tables: conflicting };
    let r = Migrator::up(&mut state);
    assert!(r.is_err());
    assert_eq!(r.unwrap_err().table, TableName::Symbol);
    // the walk stopped at its first step: nothing else was created
    assert_eq!(state.tables.len(), 1);
}

#[test]
fn partial_state_is_completed_without_touching_existing_tables() {
    // a store that holds only the symbol table, as created: up adds the
    // five missing tables and leaves the present one alone
    let mut partial = create_tables::migration().tables;
    partial.truncate(1);
    let expected_symbol = partial[0].clone();
    let mut state = SchemaState { tables: partial };
    assert!(Migrator::up(&mut state).is_ok());
    assert_eq!(state.tables.len(), 6);
    assert_eq!(state.tables[0], expected_symbol);
}

#[test]
fn ohlc_table_has_the_composite_unique_index() {
    let m = create_tables::migration();
    let ohlc = &m.tables[1];
    assert_eq!(ohlc.name, TableName::OhlcData);
    assert_eq!(ohlc.indexes.len(), 1);
    assert!(ohlc.indexes[0].unique);
    assert_eq!(
        ohlc.indexes[0].cols,
        vec![ColumnName::SymbolId, ColumnName::Timestamp]
    );
    assert_eq!(ohlc.foreign_keys.len(), 1);
    let fk = &ohlc.foreign_keys[0];
    assert_eq!(fk.from_col, ColumnName::SymbolId);
    assert_eq!(fk.to_table, TableName::Symbol);
    assert_eq!(fk.to_col, ColumnName::Id);
    assert!(fk.on_delete_cascade);
    assert!(fk.on_update_cascade);
}

#[test]
fn trade_table_references_its_backtest() {
    let m = create_tables::migration();
    let trade = &m.tables[5];
    assert_eq!(trade.name, TableName::TradeRecord);
    let fk = &trade.foreign_keys[0];
    assert_eq!(fk.from_col, ColumnName::BacktestResultId);
    assert_eq!(fk.to_table, TableName::BacktestResult);
    assert!(fk.on_delete_cascade);
    assert_eq!(
        trade.indexes[0].cols,
        vec![ColumnName::BacktestResultId, ColumnName::Timestamp]
    );
}

#[test]
fn migration_list_has_one_unit() {
    let migs = Migrator::migrations();
    assert_eq!(migs.len(), 1);
    assert_eq!(migs[0].tables.len(), 6);
}
