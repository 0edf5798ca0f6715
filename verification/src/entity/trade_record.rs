//! The `trade_record` table: one simulated trade of a backtest run.

use vstd::prelude::*;

use crate::timestamp::Timestamp;

verus! {

/// A row of the `trade_record` table.
///
/// `id` is a caller-assigned string, the primary key.
/// `backtest_result_id` references the owning `backtest_result` row, with
/// cascade on delete. The pair (`backtest_result_id`, `timestamp`) is
/// unique. `trade_type` is the trade label (buy or sell); the monetary
/// columns carry `f64` bit patterns.
#[derive(Clone, Debug, PartialEq)]
pub struct Model {
    pub id: String,
    pub backtest_result_id: String,
    pub timestamp: Timestamp,
    pub trade_type: String,
    pub price: u64,
    pub quantity: u64,
    pub amount: u64,
    pub fee: u64,
    pub remaining_capital: u64,
    pub position: u64,
    pub created_at: Timestamp,
    pub updated_at: Timestamp,
}

} // verus!
