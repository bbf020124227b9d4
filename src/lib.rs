//! A data-fetch cache with keyed deduplication, staleness tracking, listener
//! fan-out and invalidation, plus a state machine for write-style operations.
//!
//! The engine is written as plain state transitions: a caller hands in the
//! current time, the fetched results and the listener identities, and gets
//! back which fetches to run and which listeners to notify.

mod mutation;
mod query;
mod registry;

pub use mutation::{MutationResult, UseMutation};
pub use query::{CachedResult, QueryResult, STALE_TIME};
pub use registry::{QueryRecord, QueryRegistry, Refetch, RegistryEntry, Validation};
