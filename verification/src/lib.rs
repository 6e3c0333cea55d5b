//! Correctness-verification and load-generation harness for a remote
//! key-value store.
//!
//! The harness generates bounded-size random payloads, drives a fixed
//! sequence of correctness checks (put / get / delete / scan round trips)
//! and fans out many independent put tasks to stress the store.  The store
//! itself is an external collaborator reached over a request/response
//! protocol; this crate holds the verified logic: payload generation,
//! request construction, the reference semantics the checks compare
//! against, the sequential correctness scenario and the stress plan.

use vstd::prelude::*;

pub mod message;
pub mod order;
pub mod payload;
pub mod scenario;
pub mod store;
pub mod stress;

verus! {

/// Largest key the harness ever sends, in bytes.
pub const MAX_KEY_SIZE: usize = 256;

/// Largest value the harness ever sends, in bytes (3 KiB + 2).
pub const MAX_VALUE_SIZE: usize = 3074;

/// Number of concurrent put tasks the stress driver runs by default.
pub const DEFAULT_TASK_COUNT: usize = 400;

/// Pause, in milliseconds, each stress task takes after its put.
pub const DEFAULT_PAUSE_MILLIS: u64 = 0;

/// Port of the store server on the local host.
pub const DEFAULT_PORT: u16 = 3334;

} // verus!
