//! The `trading_signal` table: buy/sell/hold events per instrument.

use vstd::prelude::*;

use crate::timestamp::Timestamp;

verus! {

/// A row of the `trading_signal` table.
///
/// The pair (`symbol_id`, `timestamp`) is unique. `signal_type` is the
/// event label (buy, sell or hold), `source` names the rule that generated
/// it, and `price` carries the `f64` bit pattern of the price at signal
/// time.
#[derive(Clone, Debug, PartialEq)]
pub struct Model {
    pub id: i32,
    pub symbol_id: i32,
    pub timestamp: Timestamp,
    pub signal_type: String,
    pub source: String,
    pub price: u64,
    pub created_at: Timestamp,
    pub updated_at: Timestamp,
}

} // verus!
