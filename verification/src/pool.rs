//! The settings of the connection pool and what it decides when a
//! connection comes back.
//!
//! The pool itself, with its queue of idle connections, lives with the
//! caller; it is made from the settings that [`NntpPoolBuilder::build`]
//! hands out.

use crate::config::UsenetConfig;
use crate::error::{DlNzbError, NntpError};
use vstd::prelude::*;
use vstd::string::*;

verus! {

/// How many connections may be dialled at the same time.
pub const MAX_CONCURRENT_DIALS: usize = 10;

/// How long the pool waits, in milliseconds; `None` for no limit.
#[derive(Debug, Clone, Copy)]
pub struct Timeouts {
    /// For an idle connection or a free slot.
    pub wait: Option<u64>,
    /// For a new connection to be made.
    pub create: Option<u64>,
    /// For the health check of a connection that comes back.
    pub recycle: Option<u64>,
}

/// All that a pool is made from.
#[derive(Debug)]
pub struct PoolSettings {
    pub config: UsenetConfig,
    pub max_size: usize,
    pub timeouts: Timeouts,
    pub max_concurrent_dials: usize,
}

/// Collects the settings of a pool.
#[derive(Debug)]
pub struct NntpPoolBuilder {
    pub config: UsenetConfig,
    pub max_size: usize,
    pub timeouts: Timeouts,
}

impl NntpPoolBuilder {
    /// A builder for a pool of as many connections as the configuration
    /// names, which waits 30 s for a connection, 30 s for a new one to be
    /// made and 5 s for a health check.
    pub fn new(config: UsenetConfig) -> (b: Self)
        ensures
            b.config == config,
            b.max_size == config.connections,
            b.timeouts.wait == Some(30000u64),
            b.timeouts.create == Some(30000u64),
            b.timeouts.recycle == Some(5000u64),
    {
        let max_size: usize = config.connections as usize;
        NntpPoolBuilder {
            max_size,
            config,
            timeouts: Timeouts { wait: Some(30000), create: Some(30000), recycle: Some(5000) },
        }
    }

    /// Sets the largest number of connections.
    pub fn max_size(self, size: usize) -> (b: Self)
        ensures
            b.max_size == size,
            b.config == self.config,
            b.timeouts == self.timeouts,
    {
        NntpPoolBuilder { config: self.config, max_size: size, timeouts: self.timeouts }
    }

    /// Sets the timeouts.
    pub fn timeouts(self, timeouts: Timeouts) -> (b: Self)
        ensures
            b.timeouts == timeouts,
            b.config == self.config,
            b.max_size == self.max_size,
    {
        NntpPoolBuilder { config: self.config, max_size: self.max_size, timeouts }
    }

    /// The settings of the pool. A pool without connections is refused: no
    /// batch could ever lease one.
    pub fn build(self) -> (r: Result<PoolSettings, DlNzbError>)
        ensures
            r.is_ok() == (self.max_size > 0),
            r.is_ok() ==> r.unwrap().max_size == self.max_size && r.unwrap().config == self.config
                && r.unwrap().timeouts == self.timeouts && r.unwrap().max_concurrent_dials
                == MAX_CONCURRENT_DIALS,
            r.is_err() ==> (r.unwrap_err() matches DlNzbError::Nntp(
                NntpError::ConnectionFailed { server, port, source },
            ) && server@ == "pool"@ && port == 0 && source@ == "pool size is zero"@),
    {
        if self.max_size == 0 {
            return Err(
                DlNzbError::Nntp(
                    NntpError::ConnectionFailed {
                        server: String::from_str("pool"),
                        port: 0,
                        source: String::from_str("pool size is zero"),
                    },
                ),
            );
        }
        Ok(
            PoolSettings {
                config: self.config,
                max_size: self.max_size,
                timeouts: self.timeouts,
                max_concurrent_dials: MAX_CONCURRENT_DIALS,
            },
        )
    }
}

/// What the pool does with a connection that comes back: it keeps a healthy
/// one and refuses any other, which is then destroyed.
pub fn recycle(healthy: bool) -> (r: Result<(), DlNzbError>)
    ensures
        r.is_ok() == healthy,
        r.is_err() ==> r.unwrap_err() matches DlNzbError::Nntp(NntpError::UnhealthyConnection),
{
    if healthy {
        Ok(())
    } else {
        Err(DlNzbError::Nntp(NntpError::UnhealthyConnection))
    }
}

/// Whether a connection may go back to the pool after a batch: the batch
/// read every reply to its end and nothing broke.
pub fn may_return(batch_reusable: bool, transport_failed: bool) -> (ok: bool)
    ensures
        ok == (batch_reusable && !transport_failed),
{
    batch_reusable && !transport_failed
}

/// The error of a lease that the pool did not grant.
pub fn lease_error(cause: &str) -> (e: DlNzbError)
    ensures
        e matches DlNzbError::Nntp(NntpError::ConnectionFailed { server, port, source })
            && server@ == "pool"@ && port == 0 && source@ == cause@,
{
    DlNzbError::Nntp(
        NntpError::ConnectionFailed {
            server: String::from_str("pool"),
            port: 0,
            source: String::from_str(cause),
        },
    )
}

} // verus!
