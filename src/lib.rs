//! Access layer over a remote document store: bucket-handle caching, document
//! reads and writes with bounded retry, batch reads and a counter primitive.
//! The network work itself is done by the caller; this crate decides what to
//! do with each outcome.

pub mod entries;
pub mod pool;
pub mod errors;
pub mod document;
pub mod batch;
pub mod counter;
pub mod keys;
pub mod config;
