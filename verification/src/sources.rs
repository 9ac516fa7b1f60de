//! Source adapters: one module per external data provider.
//!
//! Each adapter declares the source's envelope types, how to unwrap one
//! page response into the generic `(items, total)` shape the paginated
//! client needs, and the request parameters of its fetch entry point.
//! The adapters hold no state; the network side that feeds them lives
//! outside this crate.

pub mod fsc;
pub mod kicox;
pub mod nps;
pub mod nts;
pub mod pps;
