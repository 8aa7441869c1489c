//! Write-ingestion front end for a sharded time-series store.
//!
//! The library routes write requests: it assigns each request to one
//! shard of an append-only log through a deterministic sharder, creates
//! namespace and table metadata on first reference, validates the
//! request's columns against the namespace schema, and hands the
//! request to the per-shard producer.

pub mod catalog;
pub mod catalog_dsn;
pub mod checker;
pub mod dml;
pub mod dml_handlers;
pub mod error;
pub mod flight;
pub mod namespace_cache;
pub mod query;
pub mod sequencer;
pub mod sharder;
pub mod text;
pub mod types;
