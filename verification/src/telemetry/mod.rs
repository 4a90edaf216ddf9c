//! Measurement events and where they are stored.

pub mod clickhouse;
pub mod models;
pub mod sink;
