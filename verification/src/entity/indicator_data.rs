//! The `indicator_data` table: derived technical values per instrument per
//! instant, produced by an external computation process.

use vstd::prelude::*;

use crate::timestamp::Timestamp;

verus! {

/// A row of the `indicator_data` table.
///
/// The pair (`symbol_id`, `timestamp`) is unique. Every indicator column is
/// optional, because warm-up periods yield no value; each carries an `f64`
/// bit pattern when present.
#[derive(Clone, Debug, PartialEq)]
pub struct Model {
    pub id: i32,
    pub symbol_id: i32,
    pub timestamp: Timestamp,
    pub ma_short: Option<u64>,
    pub ma_medium: Option<u64>,
    pub ma_long: Option<u64>,
    pub rsi: Option<u64>,
    pub macd: Option<u64>,
    pub macd_signal: Option<u64>,
    pub macd_histogram: Option<u64>,
    pub bollinger_middle: Option<u64>,
    pub bollinger_upper: Option<u64>,
    pub bollinger_lower: Option<u64>,
    pub created_at: Timestamp,
    pub updated_at: Timestamp,
}

} // verus!
