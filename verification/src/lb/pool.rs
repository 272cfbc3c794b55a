//! The backends of an upstream, their health and load, and the list of
//! healthy backends that the load balancers choose from.
use vstd::prelude::*;

use crate::time::TimeSpan;

verus! {

/// Consecutive failures after which a backend is taken out of rotation.
pub const DEFAULT_FAILURE_THRESHOLD: u32 = 3;

/// Load-balancing state of one backend. Latency is kept as an exponentially
/// weighted moving average in microseconds.
#[derive(Clone, Debug)]
pub struct BackendState {
    pub address: String,
    pub weight: u32,
    pub active_requests: usize,
    pub ewma_latency_us: Option<u64>,
    pub consecutive_failures: u32,
    pub failure_threshold: u32,
    pub healthy: bool,
}

impl BackendState {
    /// A healthy, idle backend without latency samples.
    pub fn new(address: String, weight: u32) -> (s: Self)
        ensures
            s.address == address,
            s.weight == weight,
            s.active_requests == 0,
            s.ewma_latency_us is None,
            s.consecutive_failures == 0,
            s.failure_threshold == DEFAULT_FAILURE_THRESHOLD,
            s.healthy,
    {
        BackendState {
            address,
            weight,
            active_requests: 0,
            ewma_latency_us: None,
            consecutive_failures: 0,
            failure_threshold: DEFAULT_FAILURE_THRESHOLD,
            healthy: true,
        }
    }

    pub fn active_requests(&self) -> (n: usize)
        ensures
            n == self.active_requests,
    {
        self.active_requests
    }

    pub fn weight(&self) -> (w: u32)
        ensures
            w == self.weight,
    {
        self.weight
    }

    pub fn address(&self) -> (a: &str)
        ensures
            a@ == self.address@,
    {
        self.address.as_str()
    }

    pub fn ewma_latency_us(&self) -> (e: Option<u64>)
        ensures
            e == self.ewma_latency_us,
    {
        self.ewma_latency_us
    }
}

/// A healthy backend state for `address` with `weight`.
pub fn create_backend_state(address: &str, weight: u32) -> (s: BackendState)
    ensures
        s.address@ == address@,
        s.weight == weight,
        s.active_requests == 0,
        s.ewma_latency_us is None,
        s.consecutive_failures == 0,
        s.failure_threshold == DEFAULT_FAILURE_THRESHOLD,
        s.healthy,
{
    BackendState::new(address.to_owned(), weight)
}

/// Indices of the healthy backends, in increasing order.
pub open spec fn healthy_indices(backends: Seq<BackendState>) -> Seq<usize>
    decreases backends.len(),
{
    if backends.len() == 0 {
        Seq::empty()
    } else {
        let prev = healthy_indices(backends.drop_last());
        if backends.last().healthy {
            prev.push((backends.len() - 1) as usize)
        } else {
            prev
        }
    }
}

/// The healthy list holds exactly the healthy backends, each once, in order.
pub proof fn lemma_healthy_indices(backends: Seq<BackendState>)
    requires
        backends.len() <= usize::MAX,
    ensures
        forall|j: int|
            0 <= j < healthy_indices(backends).len() ==> (#[trigger] healthy_indices(backends)[j]
                < backends.len() && backends[healthy_indices(backends)[j] as int].healthy),
        forall|i: int|
            0 <= i < backends.len() && backends[i].healthy ==> healthy_indices(
                backends,
            ).contains(i as usize),
        forall|j: int, k: int|
            0 <= j < k < healthy_indices(backends).len() ==> healthy_indices(backends)[j]
                < healthy_indices(backends)[k],
    decreases backends.len(),
{
    if backends.len() > 0 {
        let prev = backends.drop_last();
        lemma_healthy_indices(prev);
        let hp = healthy_indices(prev);
        let h = healthy_indices(backends);
        assert forall|i: int| 0 <= i < prev.len() implies #[trigger] prev[i] == backends[i] by {}
        assert forall|i: int| 0 <= i < backends.len() && backends[i].healthy implies h.contains(
            i as usize,
        ) by {
            if i < prev.len() {
                assert(prev[i] == backends[i]);
                let j = choose|j: int| 0 <= j < hp.len() && hp[j] == i as usize;
                assert(h[j] == i as usize);
            } else {
                assert(h[h.len() - 1] == i as usize);
            }
        }
    }
}

/// The backends of one upstream together with the indices of the healthy
/// ones. The membership epoch changes whenever a backend enters or leaves
/// the healthy list.
pub struct BackendPool {
    backends: Vec<BackendState>,
    healthy: Vec<usize>,
    membership_epoch: u64,
}

pub struct BackendPoolView {
    pub backends: Seq<BackendState>,
    pub epoch: u64,
}

impl View for BackendPool {
    type V = BackendPoolView;

    closed spec fn view(&self) -> BackendPoolView {
        BackendPoolView { backends: self.backends@, epoch: self.membership_epoch }
    }
}

impl BackendPoolView {
    pub open spec fn healthy(self) -> Seq<usize> {
        healthy_indices(self.backends)
    }
}

/// Health after one more failure: the count saturates, and the backend
/// leaves rotation once the count reaches its threshold.
pub open spec fn after_failure(b: BackendState) -> BackendState {
    let failures = if b.consecutive_failures == u32::MAX {
        u32::MAX
    } else {
        (b.consecutive_failures + 1) as u32
    };
    BackendState {
        consecutive_failures: failures,
        healthy: b.healthy && failures < b.failure_threshold,
        ..b
    }
}

/// Health after a success: failures are forgotten and the backend is back in rotation.
pub open spec fn after_success(b: BackendState) -> BackendState {
    BackendState { consecutive_failures: 0, healthy: true, ..b }
}

/// The moving average after a latency sample: the first sample is taken as
/// is, later ones weigh a quarter against three quarters of the average.
pub open spec fn ewma_after(old: Option<u64>, sample_us: u64) -> u64 {
    match old {
        None => sample_us,
        Some(o) => ((3 * o + sample_us) / 4) as u64,
    }
}

/// A latency in whole microseconds, saturating at `u64::MAX`.
pub open spec fn micros_of(t: TimeSpan) -> u64 {
    if t.nanos / 1000 > u64::MAX {
        u64::MAX
    } else {
        (t.nanos / 1000) as u64
    }
}

pub open spec fn sat_dec(n: usize) -> usize {
    if n == 0 {
        0
    } else {
        (n - 1) as usize
    }
}

pub open spec fn sat_inc(n: usize) -> usize {
    if n == usize::MAX {
        usize::MAX
    } else {
        (n + 1) as usize
    }
}

/// A finished request: one fewer active request, a new latency sample, and
/// for a response status, 5xx counts as a failure, 4xx as neither, and
/// anything else as a success.
pub open spec fn after_finish(b: BackendState, elapsed: TimeSpan, status: Option<u16>) -> BackendState {
    let b1 = BackendState {
        active_requests: sat_dec(b.active_requests),
        ewma_latency_us: Some(ewma_after(b.ewma_latency_us, micros_of(elapsed))),
        ..b
    };
    match status {
        Some(s) => if 500 <= s <= 599 {
            after_failure(b1)
        } else if 400 <= s <= 499 {
            b1
        } else {
            after_success(b1)
        },
        None => b1,
    }
}

/// The epoch after an update of one backend: it advances (wrapping) when the
/// backend's health changed.
pub open spec fn epoch_after(epoch: u64, before: BackendState, after: BackendState) -> u64 {
    if before.healthy != after.healthy {
        epoch.wrapping_add(1)
    } else {
        epoch
    }
}

impl BackendPool {
    /// The healthy list matches the backends' health flags.
    pub closed spec fn wf(&self) -> bool {
        &&& self.healthy@ == healthy_indices(self.backends@)
    }

    fn healthy_list(backends: &Vec<BackendState>) -> (h: Vec<usize>)
        ensures
            h@ == healthy_indices(backends@),
    {
        let mut h: Vec<usize> = Vec::new();
        let mut i: usize = 0;
        while i < backends.len()
            invariant
                0 <= i <= backends.len(),
                h@ == healthy_indices(backends@.take(i as int)),
            decreases backends.len() - i,
        {
            proof {
                assert(backends@.take(i + 1).drop_last() =~= backends@.take(i as int));
            }
            if backends[i].healthy {
                h.push(i);
            }
            i += 1;
        }
        proof {
            assert(backends@.take(backends.len() as int) =~= backends@);
        }
        h
    }

    /// A pool of the given backends, in order, at epoch 0.
    pub fn new_from_states(states: Vec<BackendState>) -> (p: Self)
        ensures
            p.wf(),
            p@.backends == states@,
            p@.epoch == 0,
    {
        let healthy = Self::healthy_list(&states);
        BackendPool { backends: states, healthy, membership_epoch: 0 }
    }

    pub fn len(&self) -> (n: usize)
        ensures
            n == self@.backends.len(),
    {
        self.backends.len()
    }

    pub fn is_empty(&self) -> (b: bool)
        ensures
            b == (self@.backends.len() == 0),
    {
        self.backends.len() == 0
    }

    pub fn healthy_len(&self) -> (n: usize)
        requires
            self.wf(),
        ensures
            n == self@.healthy().len(),
    {
        self.healthy.len()
    }

    /// Indices of the healthy backends, in increasing order.
    pub fn healthy(&self) -> (h: &Vec<usize>)
        requires
            self.wf(),
        ensures
            h@ == self@.healthy(),
            self@.backends.len() <= usize::MAX,
    {
        let _n = self.backends.len();
        &self.healthy
    }

    pub fn membership_epoch(&self) -> (e: u64)
        ensures
            e == self@.epoch,
    {
        self.membership_epoch
    }

    pub fn backend(&self, idx: usize) -> (b: &BackendState)
        requires
            idx < self@.backends.len(),
        ensures
            *b == self@.backends[idx as int],
    {
        &self.backends[idx]
    }

    pub fn address(&self, idx: usize) -> (a: Option<&str>)
        ensures
            match a {
                Some(s) => idx < self@.backends.len() && s@ == self@.backends[idx as int].address@,
                None => idx >= self@.backends.len(),
            },
    {
        if idx < self.backends.len() {
            Some(self.backends[idx].address.as_str())
        } else {
            None
        }
    }

    fn replace_backend(&mut self, idx: usize, next: BackendState)
        requires
            old(self).wf(),
            idx < old(self)@.backends.len(),
        ensures
            final(self).wf(),
            final(self)@.backends == old(self)@.backends.update(idx as int, next),
            final(self)@.epoch == epoch_after(
                old(self)@.epoch,
                old(self)@.backends[idx as int],
                next,
            ),
    {
        let changed = self.backends[idx].healthy != next.healthy;
        self.backends.set(idx, next);
        if changed {
            self.healthy = Self::healthy_list(&self.backends);
            self.membership_epoch = self.membership_epoch.wrapping_add(1);
        } else {
            proof {
                lemma_healthy_indices_same_flags(old(self)@.backends, self.backends@);
            }
        }
    }

    /// Records a failed request or health check against backend `idx`.
    pub fn mark_failure(&mut self, idx: usize)
        requires
            old(self).wf(),
        ensures
            final(self).wf(),
            idx < old(self)@.backends.len() ==> {
                let next = after_failure(old(self)@.backends[idx as int]);
                &&& final(self)@.backends == old(self)@.backends.update(idx as int, next)
                &&& final(self)@.epoch == epoch_after(
                    old(self)@.epoch,
                    old(self)@.backends[idx as int],
                    next,
                )
            },
            idx >= old(self)@.backends.len() ==> final(self)@ == old(self)@,
    {
        if idx >= self.backends.len() {
            return;
        }
        let b = &self.backends[idx];
        let failures = b.consecutive_failures.saturating_add(1);
        let next = BackendState {
            address: b.address.clone(),
            weight: b.weight,
            active_requests: b.active_requests,
            ewma_latency_us: b.ewma_latency_us,
            consecutive_failures: failures,
            failure_threshold: b.failure_threshold,
            healthy: b.healthy && failures < b.failure_threshold,
        };
        self.replace_backend(idx, next);
    }

    /// Records a successful request or health check against backend `idx`.
    pub fn mark_success(&mut self, idx: usize)
        requires
            old(self).wf(),
        ensures
            final(self).wf(),
            idx < old(self)@.backends.len() ==> {
                let next = after_success(old(self)@.backends[idx as int]);
                &&& final(self)@.backends == old(self)@.backends.update(idx as int, next)
                &&& final(self)@.epoch == epoch_after(
                    old(self)@.epoch,
                    old(self)@.backends[idx as int],
                    next,
                )
            },
            idx >= old(self)@.backends.len() ==> final(self)@ == old(self)@,
    {
        if idx >= self.backends.len() {
            return;
        }
        let b = &self.backends[idx];
        let next = BackendState {
            address: b.address.clone(),
            weight: b.weight,
            active_requests: b.active_requests,
            ewma_latency_us: b.ewma_latency_us,
            consecutive_failures: 0,
            failure_threshold: b.failure_threshold,
            healthy: true,
        };
        self.replace_backend(idx, next);
    }

    /// Counts a request started against backend `idx`.
    pub fn begin_request(&mut self, idx: usize)
        requires
            old(self).wf(),
        ensures
            final(self).wf(),
            final(self)@.epoch == old(self)@.epoch,
            idx < old(self)@.backends.len() ==> final(self)@.backends == old(self)@.backends.update(
                idx as int,
                BackendState {
                    active_requests: sat_inc(old(self)@.backends[idx as int].active_requests),
                    ..old(self)@.backends[idx as int]
                },
            ),
            idx >= old(self)@.backends.len() ==> final(self)@ == old(self)@,
    {
        if idx >= self.backends.len() {
            return;
        }
        let b = &self.backends[idx];
        let next = BackendState {
            address: b.address.clone(),
            weight: b.weight,
            active_requests: b.active_requests.saturating_add(1),
            ewma_latency_us: b.ewma_latency_us,
            consecutive_failures: b.consecutive_failures,
            failure_threshold: b.failure_threshold,
            healthy: b.healthy,
        };
        self.replace_backend(idx, next);
    }

    /// Counts a request finished against backend `idx` after `elapsed`, with
    /// the response status if one arrived.
    pub fn finish_request(&mut self, idx: usize, elapsed: TimeSpan, status: Option<u16>)
        requires
            old(self).wf(),
        ensures
            final(self).wf(),
            idx < old(self)@.backends.len() ==> {
                let next = after_finish(old(self)@.backends[idx as int], elapsed, status);
                &&& final(self)@.backends == old(self)@.backends.update(idx as int, next)
                &&& final(self)@.epoch == epoch_after(
                    old(self)@.epoch,
                    old(self)@.backends[idx as int],
                    next,
                )
            },
            idx >= old(self)@.backends.len() ==> final(self)@ == old(self)@,
    {
        if idx >= self.backends.len() {
            return;
        }
        let b = &self.backends[idx];
        let micros: u64 = if elapsed.nanos / 1000 > u64::MAX as u128 {
            u64::MAX
        } else {
            (elapsed.nanos / 1000) as u64
        };
        let ewma: u64 = match b.ewma_latency_us {
            None => micros,
            Some(o) => ((3 * (o as u128) + (micros as u128)) / 4) as u64,
        };
        let active = if b.active_requests == 0 {
            0
        } else {
            b.active_requests - 1
        };
        let mut failures = b.consecutive_failures;
        let mut healthy = b.healthy;
        match status {
            Some(s) => {
                if 500 <= s && s <= 599 {
                    failures = failures.saturating_add(1);
                    healthy = healthy && failures < b.failure_threshold;
                } else if 400 <= s && s <= 499 {
                } else {
                    failures = 0;
                    healthy = true;
                }
            },
            None => {},
        }
        let next = BackendState {
            address: b.address.clone(),
            weight: b.weight,
            active_requests: active,
            ewma_latency_us: Some(ewma),
            consecutive_failures: failures,
            failure_threshold: b.failure_threshold,
            healthy,
        };
        self.replace_backend(idx, next);
    }
}

/// The healthy list depends only on the health flags.
pub proof fn lemma_healthy_indices_same_flags(a: Seq<BackendState>, b: Seq<BackendState>)
    requires
        a.len() == b.len(),
        forall|i: int| 0 <= i < a.len() ==> #[trigger] a[i].healthy == b[i].healthy,
    ensures
        healthy_indices(a) == healthy_indices(b),
    decreases a.len(),
{
    if a.len() > 0 {
        lemma_healthy_indices_same_flags(a.drop_last(), b.drop_last());
        assert(a.last().healthy == b.last().healthy);
    }
}

} // verus!
