//! Row types of the relational schema, one module per table.
//!
//! Monetary, price and ratio columns are 64-bit floating-point in the store;
//! the rows here carry them as the raw 64-bit bit patterns (`u64`), which
//! the boundary layer converts losslessly to and from `f64`. Timestamps are
//! the crate's own naive date-time type.

pub mod backtest_result;
pub mod indicator_data;
pub mod ohlc_data;
pub mod symbol;
pub mod trade_record;
pub mod trading_signal;
