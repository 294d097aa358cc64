//! Verified core of a credential-probing engine: a concurrency-limited
//! dispatcher model with a fixed retry policy, a response classifier, and the
//! two-phase orchestrator logic (identity enumeration, then credential
//! brute force). All I/O, networking and task plumbing live outside this
//! crate; the functions here take plain values and return plain values.

pub mod classify;
pub mod counter;
pub mod engine;
pub mod retry;
pub mod types;
