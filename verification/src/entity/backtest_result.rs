//! The `backtest_result` table: the summary of one backtest run.

use vstd::prelude::*;

use crate::timestamp::Timestamp;

verus! {

/// A row of the `backtest_result` table.
///
/// `id` is a caller-assigned string, the primary key. `symbol_id`
/// references the owning `symbol` row, with cascade on delete; the row in
/// turn owns its `trade_record` rows. Capital, return, drawdown, ratio and
/// rate columns carry `f64` bit patterns.
#[derive(Clone, Debug, PartialEq)]
pub struct Model {
    pub id: String,
    pub symbol_id: i32,
    pub timeframe: String,
    pub start_date: Timestamp,
    pub end_date: Timestamp,
    pub initial_capital: u64,
    pub final_capital: u64,
    pub total_return: u64,
    pub annual_return: u64,
    pub max_drawdown: u64,
    pub sharpe_ratio: u64,
    pub trade_count: i32,
    pub winning_trades: i32,
    pub losing_trades: i32,
    pub win_rate: u64,
    pub average_win: u64,
    pub average_loss: u64,
    pub profit_factor: u64,
    pub created_at: Timestamp,
    pub updated_at: Timestamp,
}

} // verus!
