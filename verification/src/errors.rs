//! Error taxonomy of the library.
//!
//! `ValidationError` reports malformed input to `create`; `NotFound` reports a
//! record that is absent or already soft-deleted; `StoreError` reports a
//! persistence failure; `ConfigError` reports pool misconfiguration at
//! startup; `ParameterError` reports an unrecognized enumeration literal.
//! A conditional write that matches no row is not an error: it is a guard
//! failure and the operation reports success.

use vstd::prelude::*;

verus! {

#[derive(Debug)]
pub enum Error {
    ValidationError(String),
    NotFound,
    StoreError(String),
    ConfigError(String),
    ParameterError(String),
}

} // verus!
