//! Optimistic-transaction write path of an MVCC key-value store.
//!
//! A flush command stages a batch of mutations as write-intents (locks) under
//! a single start timestamp, detecting conflicts against already-committed or
//! already-locked versions, tolerating per-key failures without aborting the
//! whole batch, and detecting idempotent retries of the same request.

pub mod errors;
pub mod flush;
pub mod laws;
pub mod model;
pub mod prewrite;
pub mod snapshot;
pub mod txn;
pub mod types;
