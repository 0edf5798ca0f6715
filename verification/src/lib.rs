//! Verified core of a trading-analysis backend: the relational data model
//! for market symbols, OHLC price bars, derived indicators, trading signals
//! and backtest results, the ordered schema migrations that create it, the
//! query operations over it, and the error taxonomy and response envelope
//! that callers see.
//!
//! The durable store itself (a SQL database reached over a connection) is an
//! external collaborator: this crate models its schema-level behaviour —
//! uniqueness constraints, foreign-key cascades, ordered range queries — as a
//! verified in-memory table set, so that every invariant the schema promises
//! is proved rather than assumed.

pub mod api;
pub mod entity;
pub mod migration;
pub mod models;
pub mod services;
pub mod store;
pub mod timestamp;
