//! The configuration sections that runtime normalization reads.
use vstd::prelude::*;

verus! {

/// Performance and transport knobs, as configured.
#[derive(Debug, Clone, Copy, PartialEq, Eq)]
pub struct Performance {
    pub inflight_acquire_wait_ms: u64,
    pub backend_timeout_ms: u64,
    pub backend_connect_timeout_ms: u64,
    pub backend_body_idle_timeout_ms: u64,
    pub backend_body_total_timeout_ms: u64,
    pub backend_total_request_timeout_ms: u64,
    pub shutdown_drain_timeout_ms: u64,
    pub client_body_idle_timeout_ms: u64,
    pub h2_pool_idle_timeout_ms: u64,
    pub backend_dns_refresh_interval_ms: u64,
    pub quic_max_idle_timeout_ms: u64,
    pub worker_threads: usize,
    pub control_plane_threads: usize,
    pub packet_shards_per_worker: usize,
    pub packet_shard_queue_capacity: usize,
    pub packet_shard_queue_max_bytes: usize,
    pub reuseport: bool,
    pub pin_workers: bool,
    pub global_inflight_limit: usize,
    pub per_upstream_inflight_limit: usize,
    pub per_backend_inflight_limit: usize,
    pub udp_recv_buffer_bytes: usize,
    pub udp_send_buffer_bytes: usize,
    pub h2_pool_max_idle_per_backend: usize,
    pub backend_dns_refresh_enabled: bool,
    pub new_connections_per_sec: u32,
    pub new_connections_burst: u32,
    pub max_active_connections: usize,
    pub quic_initial_max_data: u64,
    pub quic_initial_max_stream_data: u64,
    pub quic_initial_max_streams_bidi: u64,
    pub quic_initial_max_streams_uni: u64,
    pub max_response_body_bytes: usize,
    pub max_request_body_bytes: usize,
    pub request_buffer_global_cap_bytes: usize,
    pub unknown_length_response_prebuffer_bytes: usize,
}

#[derive(Debug, Clone, Copy, PartialEq, Eq)]
pub struct AdaptiveAdmission {
    pub min_limit: usize,
    pub max_limit: Option<usize>,
    pub decrease_step: usize,
    pub increase_step: usize,
}

/// No key occurs twice among `entries`: the configuration writes them as a
/// map from names to values.
pub open spec fn keys_distinct<V>(entries: Seq<(String, V)>) -> bool {
    forall|i: int, j: int| 0 <= i < j < entries.len() ==> (#[trigger] entries[i]).0@ != (
    #[trigger] entries[j]).0@
}

/// Route admission queue limits; `caps` maps route names to their caps.
#[derive(Debug, Clone, PartialEq, Eq)]
pub struct RouteQueue {
    pub default_cap: usize,
    pub global_cap: usize,
    pub shed_retry_after_seconds: u64,
    pub caps: Vec<(String, usize)>,
}

#[derive(Debug, Clone, PartialEq, Eq)]
pub struct ProtocolPolicy {
    pub early_data_safe_methods: Vec<String>,
    pub allowed_methods: Vec<String>,
    pub denied_path_prefixes: Vec<String>,
    pub max_headers_count: usize,
    pub max_headers_bytes: usize,
    pub allow_connect: bool,
    pub connect_allowed_ports: Vec<u16>,
    pub connect_allowed_authorities: Vec<String>,
    pub allow_0rtt: bool,
}

#[derive(Debug, Clone, Copy, PartialEq, Eq)]
pub struct CircuitBreaker {
    pub failure_threshold: u32,
    pub open_ms: u64,
    pub half_open_max_probes: u32,
}

#[derive(Debug, Clone, Copy, PartialEq, Eq)]
pub struct Hedging {
    pub enabled: bool,
    pub delay_ms: u64,
}

/// Retry budget; `per_route_ratio_percent` maps route names to ratios.
#[derive(Debug, Clone, PartialEq, Eq)]
pub struct RetryBudget {
    pub ratio_percent: u32,
    pub per_route_ratio_percent: Vec<(String, u32)>,
}

#[derive(Debug, Clone, Copy, PartialEq, Eq)]
pub struct Brownout {
    pub trigger_inflight_percent: u32,
    pub recover_inflight_percent: u32,
}

#[derive(Debug, Clone, PartialEq, Eq)]
pub struct Watchdog {
    pub check_interval_ms: u64,
    pub poll_stall_timeout_ms: u64,
    pub timeout_error_rate_percent: u32,
    pub min_requests_per_window: u64,
    pub overload_inflight_percent: u32,
    pub unhealthy_consecutive_windows: u32,
    pub drain_grace_ms: u64,
    pub restart_cooldown_ms: u64,
    pub restart_command: Vec<String>,
    pub restart_hook: Option<String>,
}

#[derive(Debug, Clone, Copy, PartialEq, Eq, Structural)]
pub enum ScopedRateLimitScope {
    Route,
    Tenant,
    Client,
    Token,
}

#[derive(Debug, Clone, PartialEq, Eq)]
pub struct ScopedRateLimit {
    pub name: String,
    pub scope: ScopedRateLimitScope,
    pub requests_per_sec: u32,
    pub burst: u32,
    pub key: Option<String>,
    pub route_allowlist: Vec<String>,
    pub idle_ttl_secs: u64,
}

#[derive(Debug, Clone, PartialEq, Eq)]
pub struct Resilience {
    pub adaptive_admission: AdaptiveAdmission,
    pub route_queue: RouteQueue,
    pub protocol: ProtocolPolicy,
    pub circuit_breaker: CircuitBreaker,
    pub hedging: Hedging,
    pub retry_budget: RetryBudget,
    pub brownout: Brownout,
    pub watchdog: Watchdog,
    pub scoped_rate_limits: Vec<ScopedRateLimit>,
}

impl Resilience {
    /// The per-route maps name each route at most once.
    pub open spec fn wf(&self) -> bool {
        &&& keys_distinct(self.route_queue.caps@)
        &&& keys_distinct(self.retry_budget.per_route_ratio_percent@)
    }
}

#[derive(Debug, Clone, PartialEq, Eq)]
pub struct LoadBalancing {
    pub lb_type: String,
    pub key: Option<String>,
}

/// The configuration sections that the runtime policy set is built from.
#[derive(Debug, Clone, PartialEq, Eq)]
pub struct Config {
    pub performance: Performance,
    pub resilience: Resilience,
}

/// A copy of a list of strings.
pub fn copy_strings(v: &Vec<String>) -> (r: Vec<String>)
    ensures
        r@ == v@,
{
    let mut r: Vec<String> = Vec::new();
    let mut i: usize = 0;
    while i < v.len()
        invariant
            0 <= i <= v.len(),
            r@ == v@.take(i as int),
        decreases v.len() - i,
    {
        r.push(v[i].clone());
        proof {
            assert(v@.take(i as int).push(v@[i as int]) =~= v@.take(i + 1));
        }
        i += 1;
    }
    proof {
        assert(v@.take(v.len() as int) =~= v@);
    }
    r
}

fn copy_u16s(v: &Vec<u16>) -> (r: Vec<u16>)
    ensures
        r@ == v@,
{
    let mut r: Vec<u16> = Vec::new();
    let mut i: usize = 0;
    while i < v.len()
        invariant
            0 <= i <= v.len(),
            r@ == v@.take(i as int),
        decreases v.len() - i,
    {
        r.push(v[i]);
        proof {
            assert(v@.take(i as int).push(v@[i as int]) =~= v@.take(i + 1));
        }
        i += 1;
    }
    proof {
        assert(v@.take(v.len() as int) =~= v@);
    }
    r
}

fn copy_named<T: Copy>(v: &Vec<(String, T)>) -> (r: Vec<(String, T)>)
    ensures
        r@ == v@,
{
    let mut r: Vec<(String, T)> = Vec::new();
    let mut i: usize = 0;
    while i < v.len()
        invariant
            0 <= i <= v.len(),
            r@ == v@.take(i as int),
        decreases v.len() - i,
    {
        let e = (v[i].0.clone(), v[i].1);
        r.push(e);
        proof {
            assert(v@.take(i as int).push(v@[i as int]) =~= v@.take(i + 1));
        }
        i += 1;
    }
    proof {
        assert(v@.take(v.len() as int) =~= v@);
    }
    r
}

pub fn copy_opt_string(o: &Option<String>) -> (r: Option<String>)
    ensures
        r == *o,
{
    match o {
        Some(s) => Some(s.clone()),
        None => None,
    }
}

impl RouteQueue {
    /// Same limits and caps.
    pub open spec fn same_as(&self, o: &Self) -> bool {
        self.default_cap == o.default_cap && self.global_cap == o.global_cap
            && self.shed_retry_after_seconds == o.shed_retry_after_seconds && self.caps@ == o.caps@
    }

    pub fn duplicate(&self) -> (r: Self)
        ensures
            r.same_as(self),
    {
        RouteQueue {
            default_cap: self.default_cap,
            global_cap: self.global_cap,
            shed_retry_after_seconds: self.shed_retry_after_seconds,
            caps: copy_named(&self.caps),
        }
    }
}

impl ProtocolPolicy {
    /// Same settings, apart from the three method and path lists.
    pub open spec fn same_scalars(&self, o: &Self) -> bool {
        self.max_headers_count == o.max_headers_count && self.max_headers_bytes
            == o.max_headers_bytes && self.allow_connect == o.allow_connect
            && self.connect_allowed_ports@ == o.connect_allowed_ports@
            && self.connect_allowed_authorities@ == o.connect_allowed_authorities@
            && self.allow_0rtt == o.allow_0rtt
    }

    /// Same settings.
    pub open spec fn same_as(&self, o: &Self) -> bool {
        self.same_scalars(o) && self.early_data_safe_methods@ == o.early_data_safe_methods@
            && self.allowed_methods@ == o.allowed_methods@ && self.denied_path_prefixes@
            == o.denied_path_prefixes@
    }

    pub fn duplicate(&self) -> (r: Self)
        ensures
            r.same_as(self),
    {
        ProtocolPolicy {
            early_data_safe_methods: copy_strings(&self.early_data_safe_methods),
            allowed_methods: copy_strings(&self.allowed_methods),
            denied_path_prefixes: copy_strings(&self.denied_path_prefixes),
            max_headers_count: self.max_headers_count,
            max_headers_bytes: self.max_headers_bytes,
            allow_connect: self.allow_connect,
            connect_allowed_ports: copy_u16s(&self.connect_allowed_ports),
            connect_allowed_authorities: copy_strings(&self.connect_allowed_authorities),
            allow_0rtt: self.allow_0rtt,
        }
    }
}

impl RetryBudget {
    /// Same ratios.
    pub open spec fn same_as(&self, o: &Self) -> bool {
        self.ratio_percent == o.ratio_percent && self.per_route_ratio_percent@
            == o.per_route_ratio_percent@
    }

    pub fn duplicate(&self) -> (r: Self)
        ensures
            r.same_as(self),
    {
        RetryBudget {
            ratio_percent: self.ratio_percent,
            per_route_ratio_percent: copy_named(&self.per_route_ratio_percent),
        }
    }
}

impl Watchdog {
    /// Same settings.
    pub open spec fn same_as(&self, o: &Self) -> bool {
        self.check_interval_ms == o.check_interval_ms && self.poll_stall_timeout_ms
            == o.poll_stall_timeout_ms && self.timeout_error_rate_percent
            == o.timeout_error_rate_percent && self.min_requests_per_window
            == o.min_requests_per_window && self.overload_inflight_percent
            == o.overload_inflight_percent && self.unhealthy_consecutive_windows
            == o.unhealthy_consecutive_windows && self.drain_grace_ms == o.drain_grace_ms
            && self.restart_cooldown_ms == o.restart_cooldown_ms && self.restart_command@
            == o.restart_command@ && self.restart_hook == o.restart_hook
    }

    pub fn duplicate(&self) -> (r: Self)
        ensures
            r.same_as(self),
    {
        Watchdog {
            check_interval_ms: self.check_interval_ms,
            poll_stall_timeout_ms: self.poll_stall_timeout_ms,
            timeout_error_rate_percent: self.timeout_error_rate_percent,
            min_requests_per_window: self.min_requests_per_window,
            overload_inflight_percent: self.overload_inflight_percent,
            unhealthy_consecutive_windows: self.unhealthy_consecutive_windows,
            drain_grace_ms: self.drain_grace_ms,
            restart_cooldown_ms: self.restart_cooldown_ms,
            restart_command: copy_strings(&self.restart_command),
            restart_hook: copy_opt_string(&self.restart_hook),
        }
    }
}

} // verus!
