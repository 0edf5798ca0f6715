//! The schema's single migration unit: it creates the six tables — the
//! symbol catalog, the OHLC bars, the indicator records, the trading
//! signals, the backtest summaries and the trade records — with their
//! primary keys, cascading foreign keys and composite unique indexes, and
//! drops them in reverse order on the way back.

use vstd::prelude::*;

use crate::migration::{
    ColumnDef, ColumnName, ColumnType, ForeignKeyDef, IndexDef, IndexView, Migration, TableDef,
    TableName, TableView,
};

verus! {

/// An auto-incrementing integer primary-key column.
pub open spec fn pk_auto(name: ColumnName) -> ColumnDef {
    ColumnDef {
        name,
        col_type: ColumnType::Integer,
        not_null: true,
        primary_key: true,
        auto_increment: true,
        default_now: false,
    }
}

/// A caller-assigned text primary-key column.
pub open spec fn pk_text(name: ColumnName) -> ColumnDef {
    ColumnDef {
        name,
        col_type: ColumnType::Text,
        not_null: true,
        primary_key: false,
        auto_increment: false,
        default_now: false,
    }
}

/// A required column.
pub open spec fn req(name: ColumnName, col_type: ColumnType) -> ColumnDef {
    ColumnDef {
        name,
        col_type,
        not_null: true,
        primary_key: false,
        auto_increment: false,
        default_now: false,
    }
}

/// An optional column.
pub open spec fn opt(name: ColumnName, col_type: ColumnType) -> ColumnDef {
    ColumnDef {
        name,
        col_type,
        not_null: false,
        primary_key: false,
        auto_increment: false,
        default_now: false,
    }
}

/// A bookkeeping timestamp column that defaults to the current time.
pub open spec fn stamp(name: ColumnName) -> ColumnDef {
    ColumnDef {
        name,
        col_type: ColumnType::DateTime,
        not_null: false,
        primary_key: false,
        auto_increment: false,
        default_now: true,
    }
}

/// A foreign key cascading on both delete and update.
pub open spec fn fk_cascade(
    from_col: ColumnName,
    to_table: TableName,
    to_col: ColumnName,
) -> ForeignKeyDef {
    ForeignKeyDef { from_col, to_table, to_col, on_delete_cascade: true, on_update_cascade: true }
}

/// A unique index over the given columns.
pub open spec fn unique_on(cols: Seq<ColumnName>) -> IndexView {
    IndexView { cols, unique: true }
}

/// The symbol catalog: one row per instrument, the code unique.
pub open spec fn symbol_table() -> TableView {
    TableView {
        name: TableName::Symbol,
        columns: seq![
            pk_auto(ColumnName::Id),
            req(ColumnName::Symbol, ColumnType::Text),
            req(ColumnName::Name, ColumnType::Text),
            req(ColumnName::SymbolType, ColumnType::Text),
            req(ColumnName::Exchange, ColumnType::Text),
            opt(ColumnName::BaseCurrency, ColumnType::Text),
            opt(ColumnName::QuoteCurrency, ColumnType::Text),
            opt(ColumnName::LotSize, ColumnType::Double),
            opt(ColumnName::TickSize, ColumnType::Double),
            stamp(ColumnName::CreatedAt),
            stamp(ColumnName::UpdatedAt),
        ],
        foreign_keys: Seq::empty(),
        indexes: seq![unique_on(seq![ColumnName::Symbol])],
    }
}

/// The OHLC bars: one per instrument per instant.
pub open spec fn ohlc_table() -> TableView {
    TableView {
        name: TableName::OhlcData,
        columns: seq![
            pk_auto(ColumnName::Id),
            req(ColumnName::SymbolId, ColumnType::Integer),
            req(ColumnName::Timestamp, ColumnType::DateTime),
            req(ColumnName::Open, ColumnType::Double),
            req(ColumnName::High, ColumnType::Double),
            req(ColumnName::Low, ColumnType::Double),
            req(ColumnName::Close, ColumnType::Double),
            opt(ColumnName::Volume, ColumnType::Double),
            stamp(ColumnName::CreatedAt),
        ],
        foreign_keys: seq![
            fk_cascade(ColumnName::SymbolId, TableName::Symbol, ColumnName::Id),
        ],
        indexes: seq![unique_on(seq![ColumnName::SymbolId, ColumnName::Timestamp])],
    }
}

/// The indicator records: derived values, optional through warm-up.
pub open spec fn indicator_table() -> TableView {
    TableView {
        name: TableName::IndicatorData,
        columns: seq![
            pk_auto(ColumnName::Id),
            req(ColumnName::SymbolId, ColumnType::Integer),
            req(ColumnName::Timestamp, ColumnType::DateTime),
            opt(ColumnName::MaShort, ColumnType::Double),
            opt(ColumnName::MaMedium, ColumnType::Double),
            opt(ColumnName::MaLong, ColumnType::Double),
            opt(ColumnName::Rsi, ColumnType::Double),
            opt(ColumnName::Macd, ColumnType::Double),
            opt(ColumnName::MacdSignal, ColumnType::Double),
            opt(ColumnName::MacdHistogram, ColumnType::Double),
            opt(ColumnName::BollingerMiddle, ColumnType::Double),
            opt(ColumnName::BollingerUpper, ColumnType::Double),
            opt(ColumnName::BollingerLower, ColumnType::Double),
            stamp(ColumnName::CreatedAt),
            stamp(ColumnName::UpdatedAt),
        ],
        foreign_keys: seq![
            fk_cascade(ColumnName::SymbolId, TableName::Symbol, ColumnName::Id),
        ],
        indexes: seq![unique_on(seq![ColumnName::SymbolId, ColumnName::Timestamp])],
    }
}

/// The trading signals: buy/sell/hold events.
pub open spec fn signal_table() -> TableView {
    TableView {
        name: TableName::TradingSignal,
        columns: seq![
            pk_auto(ColumnName::Id),
            req(ColumnName::SymbolId, ColumnType::Integer),
            req(ColumnName::Timestamp, ColumnType::DateTime),
            req(ColumnName::SignalType, ColumnType::Text),
            req(ColumnName::Source, ColumnType::Text),
            req(ColumnName::Price, ColumnType::Double),
            stamp(ColumnName::CreatedAt),
            stamp(ColumnName::UpdatedAt),
        ],
        foreign_keys: seq![
            fk_cascade(ColumnName::SymbolId, TableName::Symbol, ColumnName::Id),
        ],
        indexes: seq![unique_on(seq![ColumnName::SymbolId, ColumnName::Timestamp])],
    }
}

/// The backtest summaries, keyed by caller-assigned string ids.
pub open spec fn backtest_table() -> TableView {
    TableView {
        name: TableName::BacktestResult,
        columns: seq![
            pk_text(ColumnName::Id),
            req(ColumnName::SymbolId, ColumnType::Integer),
            req(ColumnName::Timeframe, ColumnType::Text),
            req(ColumnName::StartDate, ColumnType::DateTime),
            req(ColumnName::EndDate, ColumnType::DateTime),
            req(ColumnName::InitialCapital, ColumnType::Double),
            req(ColumnName::FinalCapital, ColumnType::Double),
            req(ColumnName::TotalReturn, ColumnType::Double),
            req(ColumnName::AnnualReturn, ColumnType::Double),
            req(ColumnName::MaxDrawdown, ColumnType::Double),
            req(ColumnName::SharpeRatio, ColumnType::Double),
            req(ColumnName::TradeCount, ColumnType::Integer),
            req(ColumnName::WinningTrades, ColumnType::Integer),
            req(ColumnName::LosingTrades, ColumnType::Integer),
            req(ColumnName::WinRate, ColumnType::Double),
            req(ColumnName::AverageWin, ColumnType::Double),
            req(ColumnName::AverageLoss, ColumnType::Double),
            req(ColumnName::ProfitFactor, ColumnType::Double),
            stamp(ColumnName::CreatedAt),
            stamp(ColumnName::UpdatedAt),
        ],
        foreign_keys: seq![
            fk_cascade(ColumnName::SymbolId, TableName::Symbol, ColumnName::Id),
        ],
        indexes: Seq::empty(),
    }
}

/// The trade records: one simulated trade per backtest per instant.
pub open spec fn trade_table() -> TableView {
    TableView {
        name: TableName::TradeRecord,
        columns: seq![
            pk_text(ColumnName::Id),
            req(ColumnName::BacktestResultId, ColumnType::Text),
            req(ColumnName::Timestamp, ColumnType::DateTime),
            req(ColumnName::TradeType, ColumnType::Text),
            req(ColumnName::Price, ColumnType::Double),
            req(ColumnName::Quantity, ColumnType::Double),
            req(ColumnName::Amount, ColumnType::Double),
            req(ColumnName::Fee, ColumnType::Double),
            req(ColumnName::RemainingCapital, ColumnType::Double),
            req(ColumnName::Position, ColumnType::Double),
            stamp(ColumnName::CreatedAt),
            stamp(ColumnName::UpdatedAt),
        ],
        foreign_keys: seq![
            fk_cascade(ColumnName::BacktestResultId, TableName::BacktestResult, ColumnName::Id),
        ],
        indexes: seq![unique_on(seq![ColumnName::BacktestResultId, ColumnName::Timestamp])],
    }
}

/// The full schema, in the order the unit creates it.
pub open spec fn canonical_tables() -> Seq<TableView> {
    seq![
        symbol_table(),
        ohlc_table(),
        indicator_table(),
        signal_table(),
        backtest_table(),
        trade_table(),
    ]
}

/// Builds the column described by `pk_auto`.
fn mk_pk_auto(name: ColumnName) -> (r: ColumnDef)
    ensures
        r == pk_auto(name),
{
    ColumnDef {
        name,
        col_type: ColumnType::Integer,
        not_null: true,
        primary_key: true,
        auto_increment: true,
        default_now: false,
    }
}

/// Builds the column described by `pk_text`.
fn mk_pk_text(name: ColumnName) -> (r: ColumnDef)
    ensures
        r == pk_text(name),
{
    ColumnDef {
        name,
        col_type: ColumnType::Text,
        not_null: true,
        primary_key: false,
        auto_increment: false,
        default_now: false,
    }
}

/// Builds the column described by `req`.
fn mk_req(name: ColumnName, col_type: ColumnType) -> (r: ColumnDef)
    ensures
        r == req(name, col_type),
{
    ColumnDef {
        name,
        col_type,
        not_null: true,
        primary_key: false,
        auto_increment: false,
        default_now: false,
    }
}

/// Builds the column described by `opt`.
fn mk_opt(name: ColumnName, col_type: ColumnType) -> (r: ColumnDef)
    ensures
        r == opt(name, col_type),
{
    ColumnDef {
        name,
        col_type,
        not_null: false,
        primary_key: false,
        auto_increment: false,
        default_now: false,
    }
}

/// Builds the column described by `stamp`.
fn mk_stamp(name: ColumnName) -> (r: ColumnDef)
    ensures
        r == stamp(name),
{
    ColumnDef {
        name,
        col_type: ColumnType::DateTime,
        not_null: false,
        primary_key: false,
        auto_increment: false,
        default_now: true,
    }
}

/// Builds the foreign key described by `fk_cascade`.
fn mk_fk_cascade(from_col: ColumnName, to_table: TableName, to_col: ColumnName) -> (r:
    ForeignKeyDef)
    ensures
        r == fk_cascade(from_col, to_table, to_col),
{
    ForeignKeyDef { from_col, to_table, to_col, on_delete_cascade: true, on_update_cascade: true }
}

/// Builds a unique index over one column.
fn mk_unique_1(c0: ColumnName) -> (r: IndexDef)
    ensures
        r@ == unique_on(seq![c0]),
{
    let mut cols: Vec<ColumnName> = Vec::new();
    cols.push(c0);
    let r = IndexDef { cols, unique: true };
    proof {
        assert(r@.cols =~= seq![c0]);
        assert(r@ =~= unique_on(seq![c0]));
    }
    r
}

/// Builds a unique index over two columns.
fn mk_unique_2(c0: ColumnName, c1: ColumnName) -> (r: IndexDef)
    ensures
        r@ == unique_on(seq![c0, c1]),
{
    let mut cols: Vec<ColumnName> = Vec::new();
    cols.push(c0);
    cols.push(c1);
    let r = IndexDef { cols, unique: true };
    proof {
        assert(r@.cols =~= seq![c0, c1]);
        assert(r@ =~= unique_on(seq![c0, c1]));
    }
    r
}

/// Builds the symbol catalog definition.
fn build_symbol_table() -> (r: TableDef)
    ensures
        r@ == symbol_table(),
{
    let mut columns: Vec<ColumnDef> = Vec::new();
    columns.push(mk_pk_auto(ColumnName::Id));
    columns.push(mk_req(ColumnName::Symbol, ColumnType::Text));
    columns.push(mk_req(ColumnName::Name, ColumnType::Text));
    columns.push(mk_req(ColumnName::SymbolType, ColumnType::Text));
    columns.push(mk_req(ColumnName::Exchange, ColumnType::Text));
    columns.push(mk_opt(ColumnName::BaseCurrency, ColumnType::Text));
    columns.push(mk_opt(ColumnName::QuoteCurrency, ColumnType::Text));
    columns.push(mk_opt(ColumnName::LotSize, ColumnType::Double));
    columns.push(mk_opt(ColumnName::TickSize, ColumnType::Double));
    columns.push(mk_stamp(ColumnName::CreatedAt));
    columns.push(mk_stamp(ColumnName::UpdatedAt));
    let foreign_keys: Vec<ForeignKeyDef> = Vec::new();
    let mut indexes: Vec<IndexDef> = Vec::new();
    indexes.push(mk_unique_1(ColumnName::Symbol));
    let r = TableDef { name: TableName::Symbol, columns, foreign_keys, indexes };
    proof {
        assert(r@.columns =~= symbol_table().columns);
        assert(r@.foreign_keys =~= symbol_table().foreign_keys);
        assert(r@.indexes =~= symbol_table().indexes);
        assert(r@ =~= symbol_table());
    }
    r
}

/// Builds the OHLC bar table definition.
fn build_ohlc_table() -> (r: TableDef)
    ensures
        r@ == ohlc_table(),
{
    let mut columns: Vec<ColumnDef> = Vec::new();
    columns.push(mk_pk_auto(ColumnName::Id));
    columns.push(mk_req(ColumnName::SymbolId, ColumnType::Integer));
    columns.push(mk_req(ColumnName::Timestamp, ColumnType::DateTime));
    columns.push(mk_req(ColumnName::Open, ColumnType::Double));
    columns.push(mk_req(ColumnName::High, ColumnType::Double));
    columns.push(mk_req(ColumnName::Low, ColumnType::Double));
    columns.push(mk_req(ColumnName::Close, ColumnType::Double));
    columns.push(mk_opt(ColumnName::Volume, ColumnType::Double));
    columns.push(mk_stamp(ColumnName::CreatedAt));
    let mut foreign_keys: Vec<ForeignKeyDef> = Vec::new();
    foreign_keys.push(mk_fk_cascade(ColumnName::SymbolId, TableName::Symbol, ColumnName::Id));
    let mut indexes: Vec<IndexDef> = Vec::new();
    indexes.push(mk_unique_2(ColumnName::SymbolId, ColumnName::Timestamp));
    let r = TableDef { name: TableName::OhlcData, columns, foreign_keys, indexes };
    proof {
        assert(r@.columns =~= ohlc_table().columns);
        assert(r@.foreign_keys =~= ohlc_table().foreign_keys);
        assert(r@.indexes =~= ohlc_table().indexes);
        assert(r@ =~= ohlc_table());
    }
    r
}

/// Builds the indicator table definition.
fn build_indicator_table() -> (r: TableDef)
    ensures
        r@ == indicator_table(),
{
    let mut columns: Vec<ColumnDef> = Vec::new();
    columns.push(mk_pk_auto(ColumnName::Id));
    columns.push(mk_req(ColumnName::SymbolId, ColumnType::Integer));
    columns.push(mk_req(ColumnName::Timestamp, ColumnType::DateTime));
    columns.push(mk_opt(ColumnName::MaShort, ColumnType::Double));
    columns.push(mk_opt(ColumnName::MaMedium, ColumnType::Double));
    columns.push(mk_opt(ColumnName::MaLong, ColumnType::Double));
    columns.push(mk_opt(ColumnName::Rsi, ColumnType::Double));
    columns.push(mk_opt(ColumnName::Macd, ColumnType::Double));
    columns.push(mk_opt(ColumnName::MacdSignal, ColumnType::Double));
    columns.push(mk_opt(ColumnName::MacdHistogram, ColumnType::Double));
    columns.push(mk_opt(ColumnName::BollingerMiddle, ColumnType::Double));
    columns.push(mk_opt(ColumnName::BollingerUpper, ColumnType::Double));
    columns.push(mk_opt(ColumnName::BollingerLower, ColumnType::Double));
    columns.push(mk_stamp(ColumnName::CreatedAt));
    columns.push(mk_stamp(ColumnName::UpdatedAt));
    let mut foreign_keys: Vec<ForeignKeyDef> = Vec::new();
    foreign_keys.push(mk_fk_cascade(ColumnName::SymbolId, TableName::Symbol, ColumnName::Id));
    let mut indexes: Vec<IndexDef> = Vec::new();
    indexes.push(mk_unique_2(ColumnName::SymbolId, ColumnName::Timestamp));
    let r = TableDef { name: TableName::IndicatorData, columns, foreign_keys, indexes };
    proof {
        assert(r@.columns =~= indicator_table().columns);
        assert(r@.foreign_keys =~= indicator_table().foreign_keys);
        assert(r@.indexes =~= indicator_table().indexes);
        assert(r@ =~= indicator_table());
    }
    r
}

/// Builds the trading signal table definition.
fn build_signal_table() -> (r: TableDef)
    ensures
        r@ == signal_table(),
{
    let mut columns: Vec<ColumnDef> = Vec::new();
    columns.push(mk_pk_auto(ColumnName::Id));
    columns.push(mk_req(ColumnName::SymbolId, ColumnType::Integer));
    columns.push(mk_req(ColumnName::Timestamp, ColumnType::DateTime));
    columns.push(mk_req(ColumnName::SignalType, ColumnType::Text));
    columns.push(mk_req(ColumnName::Source, ColumnType::Text));
    columns.push(mk_req(ColumnName::Price, ColumnType::Double));
    columns.push(mk_stamp(ColumnName::CreatedAt));
    columns.push(mk_stamp(ColumnName::UpdatedAt));
    let mut foreign_keys: Vec<ForeignKeyDef> = Vec::new();
    foreign_keys.push(mk_fk_cascade(ColumnName::SymbolId, TableName::Symbol, ColumnName::Id));
    let mut indexes: Vec<IndexDef> = Vec::new();
    indexes.push(mk_unique_2(ColumnName::SymbolId, ColumnName::Timestamp));
    let r = TableDef { name: TableName::TradingSignal, columns, foreign_keys, indexes };
    proof {
        assert(r@.columns =~= signal_table().columns);
        assert(r@.foreign_keys =~= signal_table().foreign_keys);
        assert(r@.indexes =~= signal_table().indexes);
        assert(r@ =~= signal_table());
    }
    r
}

/// Builds the backtest summary table definition.
fn build_backtest_table() -> (r: TableDef)
    ensures
        r@ == backtest_table(),
{
    let mut columns: Vec<ColumnDef> = Vec::new();
    columns.push(mk_pk_text(ColumnName::Id));
    columns.push(mk_req(ColumnName::SymbolId, ColumnType::Integer));
    columns.push(mk_req(ColumnName::Timeframe, ColumnType::Text));
    columns.push(mk_req(ColumnName::StartDate, ColumnType::DateTime));
    columns.push(mk_req(ColumnName::EndDate, ColumnType::DateTime));
    columns.push(mk_req(ColumnName::InitialCapital, ColumnType::Double));
    columns.push(mk_req(ColumnName::FinalCapital, ColumnType::Double));
    columns.push(mk_req(ColumnName::TotalReturn, ColumnType::Double));
    columns.push(mk_req(ColumnName::AnnualReturn, ColumnType::Double));
    columns.push(mk_req(ColumnName::MaxDrawdown, ColumnType::Double));
    columns.push(mk_req(ColumnName::SharpeRatio, ColumnType::Double));
    columns.push(mk_req(ColumnName::TradeCount, ColumnType::Integer));
    columns.push(mk_req(ColumnName::WinningTrades, ColumnType::Integer));
    columns.push(mk_req(ColumnName::LosingTrades, ColumnType::Integer));
    columns.push(mk_req(ColumnName::WinRate, ColumnType::Double));
    columns.push(mk_req(ColumnName::AverageWin, ColumnType::Double));
    columns.push(mk_req(ColumnName::AverageLoss, ColumnType::Double));
    columns.push(mk_req(ColumnName::ProfitFactor, ColumnType::Double));
    columns.push(mk_stamp(ColumnName::CreatedAt));
    columns.push(mk_stamp(ColumnName::UpdatedAt));
    let mut foreign_keys: Vec<ForeignKeyDef> = Vec::new();
    foreign_keys.push(mk_fk_cascade(ColumnName::SymbolId, TableName::Symbol, ColumnName::Id));
    let indexes: Vec<IndexDef> = Vec::new();
    let r = TableDef { name: TableName::BacktestResult, columns, foreign_keys, indexes };
    proof {
        assert(r@.columns =~= backtest_table().columns);
        assert(r@.foreign_keys =~= backtest_table().foreign_keys);
        assert(r@.indexes =~= backtest_table().indexes);
        assert(r@ =~= backtest_table());
    }
    r
}

/// Builds the trade record table definition.
fn build_trade_table() -> (r: TableDef)
    ensures
        r@ == trade_table(),
{
    let mut columns: Vec<ColumnDef> = Vec::new();
    columns.push(mk_pk_text(ColumnName::Id));
    columns.push(mk_req(ColumnName::BacktestResultId, ColumnType::Text));
    columns.push(mk_req(ColumnName::Timestamp, ColumnType::DateTime));
    columns.push(mk_req(ColumnName::TradeType, ColumnType::Text));
    columns.push(mk_req(ColumnName::Price, ColumnType::Double));
    columns.push(mk_req(ColumnName::Quantity, ColumnType::Double));
    columns.push(mk_req(ColumnName::Amount, ColumnType::Double));
    columns.push(mk_req(ColumnName::Fee, ColumnType::Double));
    columns.push(mk_req(ColumnName::RemainingCapital, ColumnType::Double));
    columns.push(mk_req(ColumnName::Position, ColumnType::Double));
    columns.push(mk_stamp(ColumnName::CreatedAt));
    columns.push(mk_stamp(ColumnName::UpdatedAt));
    let mut foreign_keys: Vec<ForeignKeyDef> = Vec::new();
    foreign_keys.push(
        mk_fk_cascade(ColumnName::BacktestResultId, TableName::BacktestResult, ColumnName::Id),
    );
    let mut indexes: Vec<IndexDef> = Vec::new();
    indexes.push(mk_unique_2(ColumnName::BacktestResultId, ColumnName::Timestamp));
    let r = TableDef { name: TableName::TradeRecord, columns, foreign_keys, indexes };
    proof {
        assert(r@.columns =~= trade_table().columns);
        assert(r@.foreign_keys =~= trade_table().foreign_keys);
        assert(r@.indexes =~= trade_table().indexes);
        assert(r@ =~= trade_table());
    }
    r
}

/// The migration unit that creates the full schema.
pub fn migration() -> (m: Migration)
    ensures
        m@ == canonical_tables(),
{
    let mut tables: Vec<TableDef> = Vec::new();
    tables.push(build_symbol_table());
    tables.push(build_ohlc_table());
    tables.push(build_indicator_table());
    tables.push(build_signal_table());
    tables.push(build_backtest_table());
    tables.push(build_trade_table());
    let m = Migration { tables };
    proof {
        assert(m@ =~= canonical_tables());
    }
    m
}

} // verus!
