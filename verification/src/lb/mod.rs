//! Load balancing: the backend pool and the strategies that pick from it.
//! Every strategy picks among the healthy backends of a pool and answers
//! with a backend index, or nothing when no backend is healthy.
pub mod algorithms;
pub mod health;
pub mod pool;
pub mod ring;

use vstd::prelude::*;
use vstd::string::StringSliceAdditionalSpecFns;

use crate::lb::pool::{BackendPool, BackendPoolView, BackendState, lemma_healthy_indices};
use crate::lb::ring::{
    build_ring, has_weighted_healthy, lemma_ring_lookup_in_ring, lemma_spec_ring_empty,
    lemma_spec_ring_healthy, ring_lookup, spec_lookup_pos, spec_ring, spec_ring_lookup, spec_hash_key,
};
use std::sync::atomic::AtomicUsize;

verus! {

/// `(active, index)` of `x` is lexicographically at most that of `y`.
pub open spec fn lc_le(b: Seq<BackendState>, x: usize, y: usize) -> bool {
    b[x as int].active_requests < b[y as int].active_requests || (b[x as int].active_requests
        == b[y as int].active_requests && x <= y)
}

/// The latency score of a sampled backend: the moving average in
/// microseconds plus 10 ms for each request in flight.
pub open spec fn latency_score(b: BackendState) -> int {
    match b.ewma_latency_us {
        Some(e) => e + b.active_requests * 10_000,
        None => 0,
    }
}

/// `(score, active, index)` of `x` is lexicographically at most that of `y`.
pub open spec fn la_le(b: Seq<BackendState>, x: usize, y: usize) -> bool {
    let sx = latency_score(b[x as int]);
    let sy = latency_score(b[y as int]);
    sx < sy || (sx == sy && lc_le(b, x, y))
}

/// The least-connections choice: the healthy backend with the fewest
/// requests in flight, the lowest index among equals.
pub open spec fn least_connections_choice(p: BackendPoolView, r: Option<usize>) -> bool {
    match r {
        None => p.healthy().len() == 0,
        Some(i) => p.healthy().contains(i) && forall|j: int|
            0 <= j < p.healthy().len() ==> lc_le(p.backends, i, #[trigger] p.healthy()[j]),
    }
}

/// The latency-aware choice: while some healthy backend has no latency
/// sample, the least-connections choice among those; otherwise the healthy
/// backend with the lowest latency score, then fewest requests, then lowest index.
pub open spec fn latency_aware_choice(p: BackendPoolView, r: Option<usize>) -> bool {
    let unsampled = exists|j: int|
        0 <= j < p.healthy().len() && (#[trigger] p.backends[p.healthy()[j] as int]).ewma_latency_us is None;
    match r {
        None => p.healthy().len() == 0,
        Some(i) => p.healthy().contains(i) && if unsampled {
            &&& p.backends[i as int].ewma_latency_us is None
            &&& forall|j: int|
                0 <= j < p.healthy().len() && (#[trigger] p.backends[p.healthy()[j] as int]).ewma_latency_us is None
                    ==> lc_le(p.backends, i, p.healthy()[j])
        } else {
            forall|j: int|
                0 <= j < p.healthy().len() ==> la_le(p.backends, i, #[trigger] p.healthy()[j])
        },
    }
}

/// The shared least-connections scan.
pub fn pick_least_connections(pool: &BackendPool) -> (r: Option<usize>)
    requires
        pool.wf(),
    ensures
        least_connections_choice(pool@, r),
{
    let healthy = pool.healthy();
    let ghost b = pool@.backends;
    proof {
        lemma_healthy_indices(b);
    }
    let mut best: Option<(usize, usize)> = None;
    let mut k: usize = 0;
    while k < healthy.len()
        invariant
            healthy@ == pool@.healthy(),
            b == pool@.backends,
            0 <= k <= healthy.len(),
            forall|j: int| 0 <= j < healthy@.len() ==> #[trigger] healthy@[j] < b.len(),
            match best {
                None => k == 0,
                Some((a, i)) => {
                    &&& exists|j: int| 0 <= j < k && #[trigger] healthy@[j] == i
                    &&& i < b.len()
                    &&& a == b[i as int].active_requests
                    &&& forall|j: int| 0 <= j < k ==> lc_le(b, i, #[trigger] healthy@[j])
                },
            },
        decreases healthy.len() - k,
    {
        let idx = healthy[k];
        let active = pool.backend(idx).active_requests;
        match best {
            Some((best_active, best_idx)) => {
                if active < best_active || (active == best_active && idx < best_idx) {
                    best = Some((active, idx));
                }
            },
            None => {
                best = Some((active, idx));
            },
        }
        k += 1;
    }
    match best {
        Some((_, idx)) => Some(idx),
        None => None,
    }
}

/// The shared latency-aware scan.
pub fn pick_latency_aware(pool: &BackendPool) -> (r: Option<usize>)
    requires
        pool.wf(),
    ensures
        latency_aware_choice(pool@, r),
{
    let healthy = pool.healthy();
    let ghost b = pool@.backends;
    proof {
        lemma_healthy_indices(b);
    }
    let mut unsampled_best: Option<(usize, usize)> = None;
    let mut sampled_best: Option<(u128, usize, usize)> = None;
    let mut k: usize = 0;
    while k < healthy.len()
        invariant
            healthy@ == pool@.healthy(),
            b == pool@.backends,
            0 <= k <= healthy.len(),
            forall|j: int| 0 <= j < healthy@.len() ==> #[trigger] healthy@[j] < b.len(),
            match unsampled_best {
                None => forall|j: int|
                    0 <= j < k ==> (#[trigger] b[healthy@[j] as int]).ewma_latency_us is Some,
                Some((a, i)) => {
                    &&& exists|j: int| 0 <= j < k && #[trigger] healthy@[j] == i
                    &&& i < b.len()
                    &&& b[i as int].ewma_latency_us is None
                    &&& a == b[i as int].active_requests
                    &&& forall|j: int|
                        0 <= j < k && (#[trigger] b[healthy@[j] as int]).ewma_latency_us is None
                            ==> lc_le(b, i, healthy@[j])
                },
            },
            match sampled_best {
                None => forall|j: int|
                    0 <= j < k ==> (#[trigger] b[healthy@[j] as int]).ewma_latency_us is None,
                Some((s, a, i)) => {
                    &&& exists|j: int| 0 <= j < k && #[trigger] healthy@[j] == i
                    &&& i < b.len()
                    &&& b[i as int].ewma_latency_us is Some
                    &&& s == latency_score(b[i as int])
                    &&& a == b[i as int].active_requests
                    &&& forall|j: int|
                        0 <= j < k && (#[trigger] b[healthy@[j] as int]).ewma_latency_us is Some
                            ==> la_le(b, i, healthy@[j])
                },
            },
        decreases healthy.len() - k,
    {
        let idx = healthy[k];
        let backend = pool.backend(idx);
        let active = backend.active_requests;
        match backend.ewma_latency_us {
            Some(ewma) => {
                let score: u128 = (ewma as u128) + (active as u128) * 10_000;
                match sampled_best {
                    Some((best_score, best_active, best_idx)) => {
                        if score < best_score || (score == best_score && (active < best_active || (
                        active == best_active && idx < best_idx))) {
                            sampled_best = Some((score, active, idx));
                        }
                    },
                    None => {
                        sampled_best = Some((score, active, idx));
                    },
                }
            },
            None => {
                match unsampled_best {
                    Some((best_active, best_idx)) => {
                        if active < best_active || (active == best_active && idx < best_idx) {
                            unsampled_best = Some((active, idx));
                        }
                    },
                    None => {
                        unsampled_best = Some((active, idx));
                    },
                }
            },
        }
        k += 1;
    }
    if let Some((_, idx)) = unsampled_best {
        return Some(idx);
    }
    match sampled_best {
        Some((_, _, idx)) => {
            proof {
                assert(healthy@.contains(idx));
                assert(!exists|j: int|
                    0 <= j < pool@.healthy().len() && (#[trigger] pool@.backends[pool@.healthy()[j] as int]).ewma_latency_us is None);
                assert forall|j: int| 0 <= j < healthy@.len() implies la_le(
                    b,
                    idx,
                    #[trigger] healthy@[j],
                ) by {
                    assert(b[healthy@[j] as int].ewma_latency_us is Some);
                }
            }
            Some(idx)
        },
        None => {
            proof {
                if healthy@.len() > 0 {
                    assert(b[healthy@[0] as int].ewma_latency_us is Some);
                }
            }
            None
        },
    }
}

/// A random index below `n`, drawn by `rand`'s thread-local generator
/// (`Rng::gen_range`, whose documentation promises a value in the range).
#[verifier::external_body]
fn random_below(n: usize) -> (r: usize)
    requires
        n > 0,
    ensures
        r < n,
{
    rand::Rng::gen_range(&mut rand::thread_rng(), 0..n)
}

/// One round-robin pick on a pool whose healthy list is `h`, from the
/// rotation position `before` to `after`: with no healthy backend the answer
/// is nothing and the position stays; otherwise the answer is the healthy
/// backend at `before` modulo the list's length, and the position advances
/// by one (wrapping).
pub open spec fn round_robin_step(h: Seq<usize>, before: usize, after: usize, r: Option<usize>) -> bool {
    if h.len() == 0 {
        r is None && after == before
    } else {
        r == Some(h[(before as int) % (h.len() as int)]) && after == before.wrapping_add(1)
    }
}

/// A run of picks by a fresh round robin on a pool whose healthy list `h`
/// does not change: `positions[k]` is the rotation position before the
/// `k`-th pick and `results[k]` its answer.
pub open spec fn round_robin_run(h: Seq<usize>, positions: Seq<usize>, results: Seq<Option<usize>>) -> bool {
    &&& positions.len() == results.len() + 1
    &&& positions[0] == 0
    &&& forall|k: int|
        0 <= k < results.len() ==> round_robin_step(h, positions[k], positions[k + 1], #[trigger] results[k])
}

/// Cycles through the healthy backends in order.
pub struct RoundRobin {
    next: usize,
    next_read: AtomicUsize,
}

impl RoundRobin {
    /// The position of the next pick of `pick`.
    pub closed spec fn next_view(&self) -> usize {
        self.next
    }

    pub fn new() -> (r: Self)
        ensures
            r.next_view() == 0,
    {
        RoundRobin { next: 0, next_read: AtomicUsize::new(0) }
    }

    /// The healthy backend at the rotation position, which then advances by
    /// one (wrapping).
    pub fn pick(&mut self, pool: &BackendPool) -> (r: Option<usize>)
        requires
            pool.wf(),
        ensures
            round_robin_step(pool@.healthy(), old(self).next_view(), final(self).next_view(), r),
    {
        let r = round_robin_pick_at(pool, self.next);
        if pool.healthy_len() > 0 {
            self.next = self.next.wrapping_add(1);
        }
        r
    }

    /// The healthy backend at a shared rotation position, which each call
    /// reads and advances by one (wrapping) atomically.
    pub fn pick_readonly(&self, pool: &BackendPool) -> (r: Option<usize>)
        requires
            pool.wf(),
        ensures
            r is None <==> pool@.healthy().len() == 0,
            r matches Some(i) ==> pool@.healthy().contains(i),
            exists|position: usize| r == #[trigger] round_robin_at(pool@.healthy(), position),
    {
        let n = pool.healthy_len();
        if n == 0 {
            let r = round_robin_pick_at(pool, 0);
            assert(r == round_robin_at(pool@.healthy(), 0));
            return r;
        }
        let position = self.next_read.fetch_add(1, std::sync::atomic::Ordering::Relaxed);
        let r = round_robin_pick_at(pool, position);
        assert(r == round_robin_at(pool@.healthy(), position));
        r
    }
}

/// The round-robin answer at a rotation position: nothing when no backend
/// is healthy, else the healthy backend at the position modulo their number.
pub open spec fn round_robin_at(h: Seq<usize>, position: usize) -> Option<usize> {
    if h.len() == 0 {
        None
    } else {
        Some(h[(position as int) % (h.len() as int)])
    }
}

/// The round-robin pick at a given rotation position.
pub fn round_robin_pick_at(pool: &BackendPool, position: usize) -> (r: Option<usize>)
    requires
        pool.wf(),
    ensures
        r == round_robin_at(pool@.healthy(), position),
{
    let healthy = pool.healthy();
    if healthy.len() == 0 {
        return None;
    }
    Some(healthy[position % healthy.len()])
}

/// Over one full cycle, round robin visits every healthy backend: the
/// positions `next, next + 1, ..., next + len - 1` (modulo `len`) cover all
/// positions of the healthy list.
pub proof fn lemma_round_robin_cycle_covers_all(next: int, len: int, p: int)
    requires
        len > 0,
        next >= 0,
        0 <= p < len,
    ensures
        exists|k: int| 0 <= k < len && #[trigger] ((next + k) % len) == p,
{
    let k = ((p - next % len) + len) % len;
    assert(0 <= k < len);
    assert((next + k) % len == p) by (nonlinear_arith)
        requires
            len > 0,
            next >= 0,
            0 <= p < len,
            k == ((p - next % len) + len) % len,
    ;
}

/// Some answer among `results[s..s + len]` is `i`.
pub open spec fn answered_within(results: Seq<Option<usize>>, s: int, len: int, i: usize) -> bool {
    exists|k: int| s <= k < s + len && #[trigger] results[k] == Some(i)
}

proof fn lemma_round_robin_positions(h: Seq<usize>, positions: Seq<usize>, results: Seq<Option<usize>>, k: int)
    requires
        round_robin_run(h, positions, results),
        0 <= k <= results.len(),
    ensures
        h.len() == 0 ==> positions[k] == 0,
        h.len() > 0 && k <= usize::MAX ==> positions[k] == k,
    decreases k,
{
    if k > 0 {
        lemma_round_robin_positions(h, positions, results, k - 1);
        assert(round_robin_step(h, positions[k - 1], positions[k], results[k - 1]));
    }
}

proof fn lemma_mod_distinct_in_window(a: int, b: int, n: int)
    requires
        n > 0,
        0 <= a < b < a + n,
    ensures
        a % n != b % n,
{
    assert(a % n != b % n) by (nonlinear_arith)
        requires
            n > 0,
            0 <= a < b < a + n,
    {
        let qa = a / n;
        let qb = b / n;
        assert(a == qa * n + a % n);
        assert(b == qb * n + b % n);
        if a % n == b % n {
            assert(b - a == (qb - qa) * n);
            if qb - qa >= 1 {
                assert((qb - qa) * n >= n);
            } else {
                assert((qb - qa) * n <= 0);
            }
        }
    }
}

/// Round robin over any number of picks from a fresh balancer on a pool
/// that does not change: with no healthy backend every pick answers nothing
/// and the rotation never moves; otherwise the `k`-th pick answers the
/// healthy backend at `k` modulo the number of healthy backends, so any
/// run of that many consecutive picks answers each healthy backend exactly
/// once (as long as the position has not wrapped past `usize::MAX`).
pub proof fn lemma_round_robin_rotation(
    pool: BackendPoolView,
    positions: Seq<usize>,
    results: Seq<Option<usize>>,
)
    requires
        pool.backends.len() <= usize::MAX,
        round_robin_run(pool.healthy(), positions, results),
    ensures
        pool.healthy().len() == 0 ==> forall|k: int|
            0 <= k < results.len() ==> #[trigger] results[k] is None && positions[k + 1] == 0,
        pool.healthy().len() > 0 ==> forall|k: int|
            0 <= k < results.len() && k <= usize::MAX ==> #[trigger] results[k] == Some(
                pool.healthy()[k % (pool.healthy().len() as int)],
            ),
        forall|s: int, j: int|
            0 <= s && s + pool.healthy().len() <= results.len() && s + pool.healthy().len()
                <= usize::MAX + 1 && 0 <= j < pool.healthy().len() ==> #[trigger] answered_within(
                results,
                s,
                pool.healthy().len() as int,
                pool.healthy()[j],
            ),
        forall|k1: int, k2: int|
            0 <= k1 < k2 < results.len() && k2 < k1 + pool.healthy().len() && k2 <= usize::MAX
                ==> #[trigger] results[k1] != #[trigger] results[k2],
{
    let h = pool.healthy();
    let n = h.len() as int;
    lemma_healthy_indices(pool.backends);
    assert forall|k: int| 0 <= k < results.len() implies round_robin_step(
        h,
        positions[k],
        positions[k + 1],
        #[trigger] results[k],
    ) && (n == 0 ==> positions[k] == 0 && positions[k + 1] == 0) && (n > 0 && k <= usize::MAX
        ==> positions[k] == k) by {
        lemma_round_robin_positions(h, positions, results, k);
        lemma_round_robin_positions(h, positions, results, k + 1);
    }
    assert forall|s: int, j: int|
        0 <= s && s + n <= results.len() && s + n <= usize::MAX + 1 && 0 <= j < n implies #[trigger] answered_within(
        results,
        s,
        n,
        h[j],
    ) by {
        lemma_round_robin_cycle_covers_all(s, n, j);
        let d = choose|d: int| 0 <= d < n && #[trigger] ((s + d) % n) == j;
        let k = s + d;
        assert(results[k] == Some(h[k % n]));
    }
    assert forall|k1: int, k2: int|
        0 <= k1 < k2 < results.len() && k2 < k1 + n && k2 <= usize::MAX implies #[trigger] results[k1]
        != #[trigger] results[k2] by {
        lemma_mod_distinct_in_window(k1, k2, n);
        assert(results[k1] == Some(h[k1 % n]));
        assert(results[k2] == Some(h[k2 % n]));
        if k1 % n < k2 % n {
            assert(h[k1 % n] < h[k2 % n]);
        } else {
            assert(h[k2 % n] < h[k1 % n]);
        }
    }
}

/// Hashes request keys onto a ring of backend replicas.
pub struct ConsistentHash {
    replicas: u32,
    ring: Vec<(u64, usize)>,
    ring_epoch: Option<u64>,
    ring_rebuilds: u64,
}

pub struct ConsistentHashView {
    pub replicas: u32,
    pub ring: Seq<(u64, usize)>,
    pub ring_epoch: Option<u64>,
    pub ring_rebuilds: u64,
}

impl View for ConsistentHash {
    type V = ConsistentHashView;

    closed spec fn view(&self) -> ConsistentHashView {
        ConsistentHashView {
            replicas: self.replicas,
            ring: self.ring@,
            ring_epoch: self.ring_epoch,
            ring_rebuilds: self.ring_rebuilds,
        }
    }
}

/// The state of a consistent-hash balancer after a pick for `pool`: the
/// ring is rebuilt from the pool's healthy backends unless it was built at
/// the pool's current membership epoch.
pub open spec fn ring_after_pick(s: ConsistentHashView, pool: BackendPoolView) -> ConsistentHashView {
    if pool.backends.len() == 0 || s.ring_epoch == Some(pool.epoch) {
        s
    } else {
        ConsistentHashView {
            replicas: s.replicas,
            ring: spec_ring(pool, s.replicas),
            ring_epoch: Some(pool.epoch),
            ring_rebuilds: s.ring_rebuilds.wrapping_add(1),
        }
    }
}

/// What a consistent-hash pick answers: nothing for a pool without
/// backends or an empty ring, otherwise the backend of the first ring entry
/// whose hash is at least the key's hash (wrapping to the first entry).
pub open spec fn consistent_hash_result(
    s: ConsistentHashView,
    key: Seq<u8>,
    pool: BackendPoolView,
) -> Option<usize> {
    let after = ring_after_pick(s, pool);
    if pool.backends.len() == 0 || after.ring.len() == 0 {
        None
    } else {
        Some(spec_ring_lookup(after.ring, spec_hash_key(key)))
    }
}

/// The replica count a consistent-hash balancer keeps: at least one.
pub open spec fn normalized_replicas(replicas: u32) -> u32 {
    if replicas < 1 {
        1
    } else {
        replicas
    }
}

/// The state of `ConsistentHash::new(replicas)`: no ring built yet.
pub open spec fn fresh_consistent_hash(replicas: u32) -> ConsistentHashView {
    ConsistentHashView {
        replicas: normalized_replicas(replicas),
        ring: Seq::empty(),
        ring_epoch: None,
        ring_rebuilds: 0,
    }
}

/// A run of picks by `ConsistentHash::new(replicas)` on one pool that does
/// not change: `states[k]` is the balancer before the `k`-th pick, with any
/// keys.
pub open spec fn consistent_hash_run(
    pool: BackendPoolView,
    replicas: u32,
    states: Seq<ConsistentHashView>,
) -> bool {
    &&& states.len() > 0
    &&& states[0] == fresh_consistent_hash(replicas)
    &&& forall|k: int|
        0 <= k < states.len() - 1 ==> #[trigger] states[k + 1] == ring_after_pick(states[k], pool)
}

/// The balancer has only seen `pool` as it is now: its replica count is the
/// constructor's, and a ring it marks as built was built from this pool.
pub open spec fn consistent_hash_in_step(
    s: ConsistentHashView,
    pool: BackendPoolView,
    replicas: u32,
) -> bool {
    &&& s.replicas == normalized_replicas(replicas)
    &&& s.ring_epoch matches Some(e) ==> e == pool.epoch && s.ring == spec_ring(pool, s.replicas)
}

proof fn lemma_consistent_hash_step(
    s: ConsistentHashView,
    key: Seq<u8>,
    pool: BackendPoolView,
    replicas: u32,
)
    requires
        pool.backends.len() <= usize::MAX,
        consistent_hash_in_step(s, pool, replicas),
    ensures
        consistent_hash_in_step(ring_after_pick(s, pool), pool, replicas),
        consistent_hash_result(s, key, pool) == consistent_hash_result(
            fresh_consistent_hash(replicas),
            key,
            pool,
        ),
        consistent_hash_result(s, key, pool) is None <==> (pool.backends.len() == 0
            || !has_weighted_healthy(pool)),
        consistent_hash_result(s, key, pool) matches Some(i) ==> pool.healthy().contains(i),
{
    let r = normalized_replicas(replicas);
    let ring = spec_ring(pool, r);
    lemma_spec_ring_empty(pool, r);
    lemma_spec_ring_healthy(pool, r);
    if pool.backends.len() > 0 {
        assert(ring_after_pick(s, pool).ring == ring);
        assert(ring_after_pick(fresh_consistent_hash(replicas), pool).ring == ring);
        if ring.len() > 0 {
            let h = spec_hash_key(key);
            lemma_ring_lookup_in_ring(ring, h);
            assert(pool.healthy().contains(ring[spec_lookup_pos(ring, h)].1));
        }
    }
}

/// Consistent hashing on a pool that does not change, over any number of
/// picks with any keys: every pick answers what a fresh balancer with the
/// same replica count answers for its key, so one key always gets the same
/// backend. That answer is nothing exactly when the pool has no backend or
/// no healthy backend with a weight above zero, and otherwise a healthy
/// backend.
pub proof fn lemma_consistent_hash_stable(
    pool: BackendPoolView,
    replicas: u32,
    states: Seq<ConsistentHashView>,
)
    requires
        pool.backends.len() <= usize::MAX,
        consistent_hash_run(pool, replicas, states),
    ensures
        forall|k: int, key: Seq<u8>|
            0 <= k < states.len() ==> #[trigger] consistent_hash_result(states[k], key, pool)
                == consistent_hash_result(fresh_consistent_hash(replicas), key, pool),
        forall|key: Seq<u8>|
            #[trigger] consistent_hash_result(fresh_consistent_hash(replicas), key, pool) is None
                <==> (pool.backends.len() == 0 || !has_weighted_healthy(pool)),
        forall|key: Seq<u8>|
            #[trigger] consistent_hash_result(fresh_consistent_hash(replicas), key, pool) matches Some(
                i,
            ) ==> pool.healthy().contains(i),
{
    lemma_consistent_hash_run_in_step(pool, replicas, states, states.len() - 1);
    assert forall|k: int, key: Seq<u8>| 0 <= k < states.len() implies #[trigger] consistent_hash_result(
        states[k],
        key,
        pool,
    ) == consistent_hash_result(fresh_consistent_hash(replicas), key, pool) by {
        lemma_consistent_hash_run_in_step(pool, replicas, states, k);
        lemma_consistent_hash_step(states[k], key, pool, replicas);
    }
    assert forall|key: Seq<u8>| #[trigger] consistent_hash_result(
        fresh_consistent_hash(replicas),
        key,
        pool,
    ) is None <==> (pool.backends.len() == 0 || !has_weighted_healthy(pool)) by {
        lemma_consistent_hash_step(fresh_consistent_hash(replicas), key, pool, replicas);
    }
    assert forall|key: Seq<u8>| #[trigger] consistent_hash_result(
        fresh_consistent_hash(replicas),
        key,
        pool,
    ) is Some implies pool.healthy().contains(
        consistent_hash_result(fresh_consistent_hash(replicas), key, pool).unwrap(),
    ) by {
        lemma_consistent_hash_step(fresh_consistent_hash(replicas), key, pool, replicas);
    }
}

proof fn lemma_consistent_hash_run_in_step(
    pool: BackendPoolView,
    replicas: u32,
    states: Seq<ConsistentHashView>,
    k: int,
)
    requires
        pool.backends.len() <= usize::MAX,
        consistent_hash_run(pool, replicas, states),
        0 <= k < states.len(),
    ensures
        consistent_hash_in_step(states[k], pool, replicas),
    decreases k,
{
    if k > 0 {
        lemma_consistent_hash_run_in_step(pool, replicas, states, k - 1);
        lemma_consistent_hash_step(states[k - 1], Seq::empty(), pool, replicas);
        let j = k - 1;
        assert(states[j + 1] == ring_after_pick(states[j], pool));
    }
}

impl ConsistentHash {
    pub fn new(replicas: u32) -> (r: Self)
        ensures
            r@ == fresh_consistent_hash(replicas),
    {
        let ring: Vec<(u64, usize)> = Vec::new();
        proof {
            assert(ring@ =~= Seq::<(u64, usize)>::empty());
        }
        ConsistentHash {
            replicas: if replicas < 1 {
                1
            } else {
                replicas
            },
            ring,
            ring_epoch: None,
            ring_rebuilds: 0,
        }
    }

    /// Rebuilds the ring from the pool's healthy backends.
    pub fn rebuild_ring(&mut self, pool: &BackendPool)
        requires
            pool.wf(),
        ensures
            final(self)@ == (ConsistentHashView { ring: spec_ring(pool@, old(self)@.replicas), ..old(self)@ }),
    {
        self.ring = build_ring(pool, self.replicas);
    }

    pub fn pick(&mut self, key: &str, pool: &BackendPool) -> (r: Option<usize>)
        requires
            pool.wf(),
        ensures
            final(self)@ == ring_after_pick(old(self)@, pool@),
            r == consistent_hash_result(old(self)@, key.spec_bytes(), pool@),
    {
        if pool.is_empty() {
            return None;
        }
        let epoch = pool.membership_epoch();
        let rebuild = match self.ring_epoch {
            Some(e) => e != epoch,
            None => true,
        };
        if rebuild {
            self.rebuild_ring(pool);
            self.ring_epoch = Some(epoch);
            self.ring_rebuilds = self.ring_rebuilds.wrapping_add(1);
        }
        if self.ring.len() == 0 {
            return None;
        }
        Some(ring_lookup(&self.ring, key))
    }
}

/// Picks a uniformly random healthy backend.
pub struct Random;

impl Random {
    pub fn new() -> (r: Self)
        ensures
            r == Random,
    {
        Random
    }

    pub fn pick(&mut self, pool: &BackendPool) -> (r: Option<usize>)
        requires
            pool.wf(),
        ensures
            r is None <==> pool@.healthy().len() == 0,
            r matches Some(i) ==> pool@.healthy().contains(i),
    {
        self.pick_readonly(pool)
    }

    pub fn pick_readonly(&self, pool: &BackendPool) -> (r: Option<usize>)
        requires
            pool.wf(),
        ensures
            r is None <==> pool@.healthy().len() == 0,
            r matches Some(i) ==> pool@.healthy().contains(i),
    {
        let n = pool.healthy_len();
        if n == 0 {
            return None;
        }
        random_pick_with_draw(pool, random_below(n))
    }
}

/// The random pick for a given draw: nothing when no backend is healthy,
/// else the healthy backend at position `draw` of the healthy list.
pub fn random_pick_with_draw(pool: &BackendPool, draw: usize) -> (r: Option<usize>)
    requires
        pool.wf(),
        pool@.healthy().len() > 0 ==> draw < pool@.healthy().len(),
    ensures
        r == if pool@.healthy().len() == 0 {
            None
        } else {
            Some(pool@.healthy()[draw as int])
        },
{
    let healthy = pool.healthy();
    if healthy.len() == 0 {
        return None;
    }
    Some(healthy[draw])
}

/// Picks the healthy backend with the fewest requests in flight.
pub struct LeastConnections;

impl LeastConnections {
    pub fn new() -> (r: Self)
        ensures
            r == LeastConnections,
    {
        LeastConnections
    }

    pub fn pick(&mut self, pool: &BackendPool) -> (r: Option<usize>)
        requires
            pool.wf(),
        ensures
            least_connections_choice(pool@, r),
    {
        self.pick_readonly(pool)
    }

    pub fn pick_readonly(&self, pool: &BackendPool) -> (r: Option<usize>)
        requires
            pool.wf(),
        ensures
            least_connections_choice(pool@, r),
    {
        pick_least_connections(pool)
    }
}

/// Prefers backends without latency samples, then the lowest latency score.
pub struct LatencyAware;

impl LatencyAware {
    pub fn new() -> (r: Self)
        ensures
            r == LatencyAware,
    {
        LatencyAware
    }

    pub fn pick(&mut self, pool: &BackendPool) -> (r: Option<usize>)
        requires
            pool.wf(),
        ensures
            latency_aware_choice(pool@, r),
    {
        self.pick_readonly(pool)
    }

    pub fn pick_readonly(&self, pool: &BackendPool) -> (r: Option<usize>)
        requires
            pool.wf(),
        ensures
            latency_aware_choice(pool@, r),
    {
        pick_latency_aware(pool)
    }
}

/// Sticks a connection id to a backend through consistent hashing; an empty
/// key goes to the first healthy backend.
pub struct StickyCid {
    inner: ConsistentHash,
}

impl View for StickyCid {
    type V = ConsistentHashView;

    closed spec fn view(&self) -> ConsistentHashView {
        self.inner@
    }
}

/// What a sticky pick answers and the balancer state after it.
pub open spec fn sticky_pick(
    s: ConsistentHashView,
    key: Seq<u8>,
    pool: BackendPoolView,
) -> (ConsistentHashView, Option<usize>) {
    if key.len() == 0 {
        (s, if pool.healthy().len() > 0 {
            Some(pool.healthy()[0])
        } else {
            None
        })
    } else {
        (ring_after_pick(s, pool), consistent_hash_result(s, key, pool))
    }
}

impl StickyCid {
    pub fn new(replicas: u32) -> (r: Self)
        ensures
            r@ == fresh_consistent_hash(replicas),
    {
        StickyCid { inner: ConsistentHash::new(replicas) }
    }

    pub fn pick(&mut self, key: &str, pool: &BackendPool) -> (r: Option<usize>)
        requires
            pool.wf(),
        ensures
            final(self)@ == sticky_pick(old(self)@, key.spec_bytes(), pool@).0,
            r == sticky_pick(old(self)@, key.spec_bytes(), pool@).1,
    {
        if key.as_bytes().len() == 0 {
            let healthy = pool.healthy();
            if healthy.len() > 0 {
                return Some(healthy[0]);
            }
            return None;
        }
        self.inner.pick(key, pool)
    }
}

/// A ring rebuilt for a pool only names healthy backends of that pool, so a
/// pick that rebuilds the ring answers with a healthy backend.
pub proof fn lemma_consistent_hash_rebuilt_pick_is_healthy(
    s: ConsistentHashView,
    key: Seq<u8>,
    pool: BackendPoolView,
)
    requires
        s.ring_epoch != Some(pool.epoch),
        pool.backends.len() <= usize::MAX,
    ensures
        consistent_hash_result(s, key, pool) matches Some(i) ==> pool.healthy().contains(i),
{
    crate::lb::ring::lemma_spec_ring_healthy(pool, s.replicas);
    let after = ring_after_pick(s, pool);
    if pool.backends.len() > 0 && after.ring.len() > 0 {
        crate::lb::ring::lemma_ring_lookup_in_ring(after.ring, spec_hash_key(key));
    }
}

/// Picking twice with the same key from an unchanged pool gives the same
/// backend: sticky routing is deterministic.
pub proof fn lemma_sticky_pick_deterministic(
    s: ConsistentHashView,
    key: Seq<u8>,
    pool: BackendPoolView,
)
    ensures
        ({
            let (s1, r1) = sticky_pick(s, key, pool);
            let (s2, r2) = sticky_pick(s1, key, pool);
            r1 == r2 && s2 == s1
        }),
{
}


impl Default for RoundRobin {
    fn default() -> (r: Self)
        ensures
            r.next_view() == 0,
    {
        RoundRobin::new()
    }
}

impl Default for Random {
    fn default() -> (r: Self)
        ensures
            r == Random,
    {
        Random
    }
}

impl Default for LeastConnections {
    fn default() -> (r: Self)
        ensures
            r == LeastConnections,
    {
        LeastConnections
    }
}

impl Default for LatencyAware {
    fn default() -> (r: Self)
        ensures
            r == LatencyAware,
    {
        LatencyAware
    }
}

} // verus!
