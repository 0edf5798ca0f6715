//! The query services: read-only operations over the store's tables.

pub mod ohlc_service;
