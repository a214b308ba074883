//! A small HTTP client core: a connection pool with exclusive transport
//! ownership, a per-transfer response parser with backpressure, and a
//! token-based reactor bookkeeping layer that drives many concurrent
//! transfers from a single background thread.
//!
//! The wire-level work (TCP/TLS, the native transfer engine, pipes and
//! threads) lives outside this crate; this crate holds the decisions:
//! what a line of response data means, when to pause and resume a body
//! stream, which transfer a completion belongs to, and who owns a
//! transport at any moment.

pub mod buffer;
pub mod client;
pub mod error;
pub mod manager;
pub mod options;
pub mod pool;
pub mod request;
pub mod transfer;
