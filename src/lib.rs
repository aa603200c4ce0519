//! An in-memory cache of chat platform entities. Payloads are normalized
//! into flat per-kind maps linked by identifier; events create, replace and
//! delete records, and destroying a scope evicts what it owned.

pub mod cache;
pub mod laws;
pub mod model;
pub mod permissions;
pub mod request;
pub mod store;
