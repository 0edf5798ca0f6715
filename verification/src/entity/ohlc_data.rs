//! The `ohlc_data` table: one price bar per instrument per instant.

use vstd::prelude::*;

use crate::timestamp::Timestamp;

verus! {

/// A row of the `ohlc_data` table.
///
/// `symbol_id` references the owning `symbol` row, with cascade on delete.
/// The pair (`symbol_id`, `timestamp`) is unique: at most one bar per
/// instrument per instant. Prices and volume carry `f64` bit patterns.
/// Rows are immutable once inserted and leave the store only through the
/// cascade of their owning symbol.
#[derive(Clone, Copy, Debug, PartialEq)]
pub struct Model {
    pub id: i32,
    pub symbol_id: i32,
    pub timestamp: Timestamp,
    pub open: u64,
    pub high: u64,
    pub low: u64,
    pub close: u64,
    pub volume: Option<u64>,
    pub created_at: Timestamp,
}

} // verus!
