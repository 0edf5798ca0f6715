//! The outward-facing layer: the closed error taxonomy, the uniform
//! response envelope, and the query operations as callers invoke them.

pub mod error;
pub mod models;
pub mod ohlc_api;
