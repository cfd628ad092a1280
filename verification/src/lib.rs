//! Off-chain indexing pipeline for a blog ledger's event stream.
//!
//! Raw log lines carry base64-encoded binary event frames. Each frame is an
//! 8-byte discriminator tag followed by a payload in a strict little-endian
//! binary layout. The pipeline extracts frames from log lines, identifies the
//! event variant by its tag, decodes the payload, and applies the event to a
//! relational store model, in arrival order and with per-event failure
//! isolation. Read-side queries over the store are provided as well.

pub mod channel;
pub mod decoder;
pub mod events;
pub mod indexer;
pub mod registry;
pub mod service;
pub mod store;
pub mod subscriber;
