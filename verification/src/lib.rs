//! Deterministic agent execution core: a content-addressed event log with a
//! hash chain, canonical value encoding, capability enforcement, a planning
//! DAG with a topological scheduler, a policy evaluator, a governed patch
//! lifecycle, a memory store with last-writer-wins merge, a fuel-bounded
//! sandbox boundary, and a replay engine with divergence detection.

use vstd::prelude::*;

pub mod canon;
pub mod capability;
pub mod errors;
pub mod event;
pub mod hashes;
pub mod kv;
pub mod order;
pub mod dag;
pub mod memory;
pub mod patches;
pub mod plan;
pub mod policy;
pub mod replay;
pub mod runtime;
pub mod scheduler;
pub mod screen;
pub mod state;
pub mod timebase;
pub mod wasm;

verus! {

/// The number of bytes in a content hash.
pub const HASH_SIZE: usize = 32;

/// The number of characters in a hex-encoded content hash.
pub const HEX_HASH_SIZE: usize = 64;

} // verus!
