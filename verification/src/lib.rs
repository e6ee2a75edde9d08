//! An in-memory movie catalog with a verified search pipeline.
//!
//! The library holds the logic of a read-only movie search service:
//! resolving the object-store endpoint from configuration values,
//! folding the outcomes of catalog fetches into an immutable snapshot,
//! parsing query parameters with silent defaults, and answering
//! filtered, paginated queries against the snapshot.  All I/O (HTTP,
//! object store, JSON transport) lives outside the library and hands
//! it plain values.

pub mod endpoint;
pub mod laws;
pub mod loader;
pub mod movie;
pub mod parse;
pub mod query;
pub mod search;
pub mod snapshot;
