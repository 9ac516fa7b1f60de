//! Ingestion core for a regional industry data platform.
//!
//! The library reconciles snapshots from several government open-data APIs
//! into one canonical keyspace: it normalizes business-registration numbers
//! and administrative-region codes, drives paginated fetches with bounded
//! exponential-backoff retry, unwraps each source's response envelope,
//! merges records into the canonical store by natural key, and computes a
//! deterministic regional health score.  All network and database traffic
//! stays outside this crate; the library works on plain values and states
//! its behaviour in contracts.

pub mod client;
pub mod config;
pub mod error;
pub mod health_score;
pub mod load;
pub mod models;
pub mod normalize;
pub mod numeric;
pub mod sources;
pub mod store;
