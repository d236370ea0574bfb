//! Synchronisation pipeline for stop records: cursor pagination, rate-limited
//! address enrichment, sequential identifier allocation and chunked write-back.
pub mod cli;
pub mod config;
pub mod enrich;
pub mod fetch;
pub mod generate_id;
pub mod models;
pub mod query;
pub mod sheet;
pub mod writeback;
