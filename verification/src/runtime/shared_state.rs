//! State shared by the workers of one runtime generation.
use vstd::prelude::*;

use crate::lb::pool::{BackendPool, BackendPoolView};

verus! {

/// Counters of the ingress queue that the workers report.
#[derive(Debug, Clone, PartialEq, Eq)]
pub struct RuntimeMetricsCounters {
    pub worker_slot: Option<usize>,
    pub ingress_queue_drops: u64,
    pub ingress_queue_drop_bytes: u64,
    pub ingress_queue_bytes: usize,
}

/// Services that outlive a configuration reload.
pub struct RuntimeSharedServices {
    pub metrics: RuntimeMetricsCounters,
}

/// State that a configuration reload replaces: the upstream pools.
pub struct RuntimeGenerationState {
    pub upstream_pools: Vec<BackendPool>,
}

pub struct SharedRuntimeState {
    pub shared_services: RuntimeSharedServices,
    pub generation_state: RuntimeGenerationState,
}

pub open spec fn pool_views(pools: Seq<BackendPool>) -> Seq<BackendPoolView> {
    pools.map_values(|p: BackendPool| p@)
}

pub open spec fn saturating(n: int) -> usize {
    if n > usize::MAX {
        usize::MAX
    } else {
        n as usize
    }
}

/// Healthy and total backends over the pools, each sum saturating; a pool
/// counts at most as many healthy backends as it has.
pub open spec fn health_totals(pools: Seq<BackendPoolView>) -> (usize, usize)
    decreases pools.len(),
{
    if pools.len() == 0 {
        (0, 0)
    } else {
        let prev = health_totals(pools.drop_last());
        let total = pools.last().backends.len();
        let healthy = if pools.last().healthy().len() < total {
            pools.last().healthy().len()
        } else {
            total
        };
        (saturating(prev.0 + healthy), saturating(prev.1 + total))
    }
}

/// Healthy and total backends over the pools that could be read.
pub fn snapshot_backend_health(pools: &Vec<BackendPool>) -> (r: (usize, usize))
    requires
        forall|i: int| 0 <= i < pools@.len() ==> #[trigger] pools@[i].wf(),
    ensures
        r == health_totals(pool_views(pools@)),
{
    let mut healthy: usize = 0;
    let mut total: usize = 0;
    let mut i: usize = 0;
    while i < pools.len()
        invariant
            0 <= i <= pools.len(),
            forall|j: int| 0 <= j < pools@.len() ==> #[trigger] pools@[j].wf(),
            (healthy, total) == health_totals(pool_views(pools@.take(i as int))),
        decreases pools.len() - i,
    {
        proof {
            assert(pool_views(pools@.take(i + 1)).drop_last() =~= pool_views(pools@.take(i as int)));
            assert(pool_views(pools@.take(i + 1)).last() == pools@[i as int]@);
        }
        let pool = &pools[i];
        let pool_total = pool.len();
        let pool_healthy = pool.healthy_len();
        let counted = if pool_healthy < pool_total {
            pool_healthy
        } else {
            pool_total
        };
        total = total.saturating_add(pool_total);
        healthy = healthy.saturating_add(counted);
        i += 1;
    }
    proof {
        assert(pools@.take(pools.len() as int) =~= pools@);
    }
    (healthy, total)
}

impl SharedRuntimeState {
    pub fn from_parts(
        shared_services: RuntimeSharedServices,
        generation_state: RuntimeGenerationState,
    ) -> (s: Self)
        ensures
            s.shared_services == shared_services,
            s.generation_state == generation_state,
    {
        SharedRuntimeState { shared_services, generation_state }
    }

    pub fn shared_services(&self) -> (s: &RuntimeSharedServices)
        ensures
            *s == self.shared_services,
    {
        &self.shared_services
    }

    pub fn generation_state(&self) -> (g: &RuntimeGenerationState)
        ensures
            *g == self.generation_state,
    {
        &self.generation_state
    }

    /// Records the worker slot that reports the metrics.
    pub fn bind_metrics_worker_slot(&mut self, slot: usize)
        ensures
            final(self).shared_services.metrics.worker_slot == Some(slot),
            final(self).shared_services.metrics.ingress_queue_drops
                == old(self).shared_services.metrics.ingress_queue_drops,
            final(self).shared_services.metrics.ingress_queue_drop_bytes
                == old(self).shared_services.metrics.ingress_queue_drop_bytes,
            final(self).shared_services.metrics.ingress_queue_bytes
                == old(self).shared_services.metrics.ingress_queue_bytes,
            final(self).generation_state == old(self).generation_state,
    {
        self.shared_services.metrics.worker_slot = Some(slot);
    }

    /// Counts one packet dropped from the ingress queue (wrapping, as an
    /// atomic counter does).
    pub fn inc_ingress_queue_drop(&mut self)
        ensures
            final(self).shared_services.metrics.ingress_queue_drops
                == old(self).shared_services.metrics.ingress_queue_drops.wrapping_add(1),
            final(self).shared_services.metrics.worker_slot
                == old(self).shared_services.metrics.worker_slot,
            final(self).shared_services.metrics.ingress_queue_drop_bytes
                == old(self).shared_services.metrics.ingress_queue_drop_bytes,
            final(self).shared_services.metrics.ingress_queue_bytes
                == old(self).shared_services.metrics.ingress_queue_bytes,
            final(self).generation_state == old(self).generation_state,
    {
        self.shared_services.metrics.ingress_queue_drops =
            self.shared_services.metrics.ingress_queue_drops.wrapping_add(1);
    }

    /// Counts the bytes of dropped ingress packets (wrapping).
    pub fn inc_ingress_queue_drop_bytes(&mut self, bytes: usize)
        ensures
            final(self).shared_services.metrics.ingress_queue_drop_bytes
                == old(self).shared_services.metrics.ingress_queue_drop_bytes.wrapping_add(
                bytes as u64,
            ),
            final(self).shared_services.metrics.worker_slot
                == old(self).shared_services.metrics.worker_slot,
            final(self).shared_services.metrics.ingress_queue_drops
                == old(self).shared_services.metrics.ingress_queue_drops,
            final(self).shared_services.metrics.ingress_queue_bytes
                == old(self).shared_services.metrics.ingress_queue_bytes,
            final(self).generation_state == old(self).generation_state,
    {
        self.shared_services.metrics.ingress_queue_drop_bytes =
            self.shared_services.metrics.ingress_queue_drop_bytes.wrapping_add(bytes as u64);
    }

    /// Records the bytes now waiting in the ingress queue.
    pub fn set_ingress_queue_bytes(&mut self, bytes: usize)
        ensures
            final(self).shared_services.metrics.ingress_queue_bytes == bytes,
            final(self).shared_services.metrics.worker_slot
                == old(self).shared_services.metrics.worker_slot,
            final(self).shared_services.metrics.ingress_queue_drops
                == old(self).shared_services.metrics.ingress_queue_drops,
            final(self).shared_services.metrics.ingress_queue_drop_bytes
                == old(self).shared_services.metrics.ingress_queue_drop_bytes,
            final(self).generation_state == old(self).generation_state,
    {
        self.shared_services.metrics.ingress_queue_bytes = bytes;
    }

    /// Healthy and total backends over the generation's upstream pools.
    pub fn snapshot_backend_health(&self) -> (r: (usize, usize))
        requires
            forall|i: int|
                0 <= i < self.generation_state.upstream_pools@.len()
                    ==> #[trigger] self.generation_state.upstream_pools@[i].wf(),
        ensures
            r == health_totals(pool_views(self.generation_state.upstream_pools@)),
    {
        snapshot_backend_health(&self.generation_state.upstream_pools)
    }
}

} // verus!
