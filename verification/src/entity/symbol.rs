//! The `symbol` table: one row per tradable instrument.

use vstd::prelude::*;

use crate::timestamp::Timestamp;

verus! {

/// A row of the `symbol` table.
///
/// `id` is the generated primary key; `symbol` is the instrument code,
/// unique within the catalog. `lot_size` and `tick_size` carry `f64` bit
/// patterns. `created_at` is set once at insertion; `updated_at` is
/// refreshed on every mutation.
#[derive(Clone, Debug, PartialEq)]
pub struct Model {
    pub id: i32,
    pub symbol: String,
    pub name: String,
    pub symbol_type: String,
    pub exchange: String,
    pub base_currency: Option<String>,
    pub quote_currency: Option<String>,
    pub lot_size: Option<u64>,
    pub tick_size: Option<u64>,
    pub created_at: Timestamp,
    pub updated_at: Timestamp,
}

} // verus!
