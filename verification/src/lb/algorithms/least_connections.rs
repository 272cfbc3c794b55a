use vstd::prelude::*;

use crate::lb::pool::BackendPool;
use crate::lb::{least_connections_choice, pick_least_connections};

verus! {

/// Picks the healthy backend with the fewest requests in flight.
pub struct LeastConnections;

impl LeastConnections {
    pub fn new() -> (r: Self)
        ensures
            r == LeastConnections,
    {
        LeastConnections
    }

    pub fn pick(&mut self, pool: &BackendPool) -> (r: Option<usize>)
        requires
            pool.wf(),
        ensures
            least_connections_choice(pool@, r),
    {
        self.pick_readonly(pool)
    }

    pub fn pick_readonly(&self, pool: &BackendPool) -> (r: Option<usize>)
        requires
            pool.wf(),
        ensures
            least_connections_choice(pool@, r),
    {
        pick_least_connections(pool)
    }
}

} // verus!
