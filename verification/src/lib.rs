//! Core logic of a PostgreSQL wire-protocol proxy.
//!
//! The crate translates upstream query results into protocol-correct
//! downstream responses, keeps the per-connection statement and portal
//! store, implements the simple and extended query handlers, and drives
//! the per-connection protocol state machine. Network transport,
//! authentication and the byte-level message codec are collaborators
//! around this crate and stay outside it.

pub mod api;
pub mod encoder;
pub mod extended;
pub mod results;
pub mod store;
pub mod translate;
