//! Query counters for the persistence layer, with their wrap-around
//! arithmetic made explicit.

use vstd::prelude::*;

verus! {

/// Addition modulo 2^64.
pub open spec fn wrap_add64(a: u64, b: u64) -> u64 {
    if a + b > u64::MAX {
        (a + b - 0x1_0000_0000_0000_0000) as u64
    } else {
        (a + b) as u64
    }
}

/// Performance counters over the query log.
#[derive(Debug)]
pub struct DatabaseStats {
    pub total_queries: u64,
    pub total_query_time: u64,
    pub failed_queries: u64,
    pub connection_pool_waits: u64,
}

impl DatabaseStats {
    /// Zeroed counters.
    pub fn new() -> (r: Self)
        ensures
            r.total_queries == 0,
            r.total_query_time == 0,
            r.failed_queries == 0,
            r.connection_pool_waits == 0,
    {
        DatabaseStats {
            total_queries: 0,
            total_query_time: 0,
            failed_queries: 0,
            connection_pool_waits: 0,
        }
    }

    /// Counts one query and adds its duration; a failed query also counts
    /// toward the failure counter. The counters wrap around at 2^64.
    pub fn record_query(&mut self, duration_ms: u64, success: bool)
        ensures
            final(self).total_queries == wrap_add64(old(self).total_queries, 1),
            final(self).total_query_time == wrap_add64(old(self).total_query_time, duration_ms),
            final(self).failed_queries == if success {
                old(self).failed_queries
            } else {
                wrap_add64(old(self).failed_queries, 1)
            },
            final(self).connection_pool_waits == old(self).connection_pool_waits,
    {
        self.total_queries = wrapping_inc(self.total_queries, 1);
        self.total_query_time = wrapping_inc(self.total_query_time, duration_ms);
        if !success {
            self.failed_queries = wrapping_inc(self.failed_queries, 1);
        }
    }
}

/// Adds modulo 2^64.
fn wrapping_inc(a: u64, b: u64) -> (r: u64)
    ensures
        r == wrap_add64(a, b),
{
    if b <= u64::MAX - a {
        a + b
    } else {
        b - (u64::MAX - a) - 1
    }
}

} // verus!
