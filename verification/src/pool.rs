//! Validation of the connection-pool configuration.
//!
//! The pool itself — connections, the one-time global instance, the
//! liveness probe — belongs to the surrounding service; the library states
//! and checks only the startup rule: the connection bound must be positive
//! and the connection URL non-empty, and an invalid configuration fails
//! fast with `ConfigError`.

use vstd::prelude::*;

use crate::errors::Error;

verus! {

/// A validated pool configuration.
pub struct PoolConfig {
    pub max_connections: u32,
    pub connection_url: String,
}

/// Validate the pool configuration: `Ok` exactly when the connection bound
/// is positive and the URL is non-empty.
pub fn validate_pool_config(max_connections: u32, connection_url: String) -> (r: Result<
    PoolConfig,
    Error,
>)
    ensures
        (max_connections > 0 && connection_url@.len() > 0) <==> r is Ok,
        r matches Ok(c) ==> c.max_connections == max_connections && c.connection_url@
            == connection_url@,
        r matches Err(e) ==> e is ConfigError,
{
    if max_connections == 0 {
        return Err(Error::ConfigError("max connection for database is incorrect".to_owned()));
    }
    if connection_url.as_str().is_empty() {
        return Err(Error::ConfigError("database connection url is incorrect".to_owned()));
    }
    Ok(PoolConfig { max_connections, connection_url })
}

} // verus!
