//! A verified core for a small request-logging tool: an append-only store of
//! completed API calls with time- and service-filtered queries, a pure
//! projection from stored records to display rows, and the state machine of a
//! two-mode interactive browser over those rows.
//!
//! Persistence, terminal handling and the outbound HTTP flow live with the
//! binary; this crate holds the logic and its proofs.

pub mod browser;
pub mod cfg;
pub mod cli;
pub mod clock;
pub mod http;
pub mod json;
pub mod project;
pub mod row;
pub mod store;
