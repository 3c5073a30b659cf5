//! A query gateway: one network-facing service that accepts query requests
//! over plain request/response and over a long-lived duplex (websocket)
//! session, executes them against a shared engine through a bounded
//! connection pool, memoizes raw results in a bounded least-recently-used
//! cache, and encodes each outcome into its transport wire form.
//!
//! This crate holds the verified core: request normalization, response
//! encoding, the duplex session state machine, and the cache and pool
//! disciplines. Transport plumbing (sockets, routing, task spawning) lives
//! outside it and talks to the core through plain values.
use vstd::prelude::*;

pub mod cache;
pub mod dispatch;
pub mod interfaces;
pub mod normalize;
pub mod pool;
pub mod query_string;
mod text;
pub mod websocket;

verus! {

/// Server construction settings after defaulting: the database target,
/// the connection-pool capacity and the cache capacity in entries.
pub struct Config {
    pub db_path: String,
    pub pool_capacity: u32,
    pub cache_capacity: usize,
}

/// Applies the construction defaults: an in-memory database target, a pool
/// of ten connections and a cache of a thousand entries, each used only
/// where the caller gave no value of its own.
pub fn resolve_config(
    db_path: Option<&str>,
    pool_capacity: Option<u32>,
    cache_capacity: Option<usize>,
) -> (c: Config)
    ensures
        c.db_path@ == (match db_path {
            Some(p) => p@,
            None => ":memory:"@,
        }),
        c.pool_capacity == (match pool_capacity {
            Some(n) => n,
            None => 10u32,
        }),
        c.cache_capacity == (match cache_capacity {
            Some(n) => n,
            None => 1000usize,
        }),
{
    Config {
        db_path: match db_path {
            Some(p) => p.to_owned(),
            None => ":memory:".to_owned(),
        },
        pool_capacity: match pool_capacity {
            Some(n) => n,
            None => 10,
        },
        cache_capacity: match cache_capacity {
            Some(n) => n,
            None => 1000,
        },
    }
}

} // verus!
