//! Key lifecycle management for a trust-infrastructure service.
//!
//! The library models a store of signing-key records together with the
//! delete-vote ledger, and implements every lifecycle transition as an
//! atomic conditional write against that store: a mutation guarded by a
//! predicate over the current row, never a separate read-check-write
//! sequence. The quorum-delete protocol for shared (public) keys and the
//! soft-delete semantics are verified against the state-machine rules.

use vstd::prelude::*;

pub mod entity;
pub mod errors;
pub mod laws;
pub mod model;
pub mod pool;
pub mod repository;
pub mod sign;

verus! {

/// Number of distinct approver votes required before a public key is deleted.
pub const DELETE_THRESHOLD: usize = 3;

} // verus!
