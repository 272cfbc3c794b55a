//! Normalization of configuration sections into runtime policies. Each
//! normalizer checks its section in a fixed order and reports the first
//! violated rule, with the message that names it.
use vstd::prelude::*;
use vstd::string::StringSliceAdditionalSpecFns;

use crate::config::model::{
    copy_opt_string, copy_strings, AdaptiveAdmission, Brownout, CircuitBreaker, Config, Hedging, LoadBalancing,
    Performance, ProtocolPolicy, Resilience, RetryBudget, RouteQueue, ScopedRateLimit,
    ScopedRateLimitScope, Watchdog,
};
use crate::config::validate::{
    err_of, invalid_if, invalid_str, is_valid_connect_authority, is_valid_http_token,
    is_valid_request_key_spec, nonzero_check, normalize_optional_string, normalize_string_vec,
    opt_string_view, or_else, require_nonzero_u32, require_nonzero_u64,
    require_nonzero_usize, spec_is_valid_connect_authority, spec_is_valid_http_token,
    spec_is_valid_request_key_spec, spec_normalize_optional, spec_normalize_strings,
    strings_view, config_invalid, unsupported_policy, ConfigErrorView, RuntimeConfigError,
};
use crate::text::{chars_of, eq_str, lower_chars, lower_seq, string_of, trim, trimmed};
use crate::text_num::{decimal, push_decimal};
use crate::time::TimeSpan;

verus! {

/// `a`, then the decimal digits of `n`, then `b`.
fn msg_num(a: &str, n: u64, b: &str) -> (m: String)
    ensures
        m@ == a@ + decimal(n as nat) + b@,
{
    let mut m = a.to_owned();
    push_decimal(&mut m, n);
    m.append(b);
    m
}

/// `a`, `n1`, `b`, `n2`, `c`, with the numbers in decimal.
fn msg_num2(a: &str, n1: u64, b: &str, n2: u64, c: &str) -> (m: String)
    ensures
        m@ == a@ + decimal(n1 as nat) + b@ + decimal(n2 as nat) + c@,
{
    let mut m = a.to_owned();
    push_decimal(&mut m, n1);
    m.append(b);
    push_decimal(&mut m, n2);
    m.append(c);
    m
}

/// `a`, then `s`, then `b`.
fn msg_text(a: &str, s: &str, b: &str) -> (m: String)
    ensures
        m@ == a@ + s@ + b@,
{
    let mut m = a.to_owned();
    m.append(s);
    m.append(b);
    m
}

#[derive(Debug, Clone, Copy, PartialEq, Eq, Structural)]
pub enum RuntimeLoadBalancingStrategy {
    RoundRobin,
    ConsistentHash,
    Random,
    LeastConnections,
    LatencyAware,
    StickyCid,
    Other,
}

/// The strategy named by a load-balancing type, compared after trimming and
/// ASCII lowercasing.
pub open spec fn spec_strategy_of(lb_type: Seq<char>) -> RuntimeLoadBalancingStrategy {
    let t = lower_seq(trim(lb_type));
    if t == "round-robin"@ {
        RuntimeLoadBalancingStrategy::RoundRobin
    } else if t == "consistent-hash"@ {
        RuntimeLoadBalancingStrategy::ConsistentHash
    } else if t == "random"@ {
        RuntimeLoadBalancingStrategy::Random
    } else if t == "least-connections"@ {
        RuntimeLoadBalancingStrategy::LeastConnections
    } else if t == "latency-aware"@ {
        RuntimeLoadBalancingStrategy::LatencyAware
    } else if t == "sticky-cid"@ {
        RuntimeLoadBalancingStrategy::StickyCid
    } else {
        RuntimeLoadBalancingStrategy::Other
    }
}

impl RuntimeLoadBalancingStrategy {
    pub fn from_lb_type(lb_type: &str) -> (s: Self)
        ensures
            s == spec_strategy_of(lb_type@),
    {
        let raw = chars_of(lb_type);
        let t = trimmed(raw.as_slice());
        let l = lower_chars(t.as_slice());
        let k = l.as_slice();
        if eq_str(k, "round-robin") {
            RuntimeLoadBalancingStrategy::RoundRobin
        } else if eq_str(k, "consistent-hash") {
            RuntimeLoadBalancingStrategy::ConsistentHash
        } else if eq_str(k, "random") {
            RuntimeLoadBalancingStrategy::Random
        } else if eq_str(k, "least-connections") {
            RuntimeLoadBalancingStrategy::LeastConnections
        } else if eq_str(k, "latency-aware") {
            RuntimeLoadBalancingStrategy::LatencyAware
        } else if eq_str(k, "sticky-cid") {
            RuntimeLoadBalancingStrategy::StickyCid
        } else {
            RuntimeLoadBalancingStrategy::Other
        }
    }
}

/// Each supported load-balancing type names its own strategy, whatever its
/// surrounding whitespace and ASCII case; any other name is unsupported,
/// and exactly the unsupported names fail normalization.
pub proof fn lemma_strategy_names(lb_type: Seq<char>)
    ensures
        lower_seq(trim(lb_type)) == "round-robin"@ ==> spec_strategy_of(lb_type)
            == RuntimeLoadBalancingStrategy::RoundRobin,
        lower_seq(trim(lb_type)) == "consistent-hash"@ ==> spec_strategy_of(lb_type)
            == RuntimeLoadBalancingStrategy::ConsistentHash,
        lower_seq(trim(lb_type)) == "random"@ ==> spec_strategy_of(lb_type)
            == RuntimeLoadBalancingStrategy::Random,
        lower_seq(trim(lb_type)) == "least-connections"@ ==> spec_strategy_of(lb_type)
            == RuntimeLoadBalancingStrategy::LeastConnections,
        lower_seq(trim(lb_type)) == "latency-aware"@ ==> spec_strategy_of(lb_type)
            == RuntimeLoadBalancingStrategy::LatencyAware,
        lower_seq(trim(lb_type)) == "sticky-cid"@ ==> spec_strategy_of(lb_type)
            == RuntimeLoadBalancingStrategy::StickyCid,
        (spec_strategy_of(lb_type) == RuntimeLoadBalancingStrategy::Other) <==> !(set![
            "round-robin"@,
            "consistent-hash"@,
            "random"@,
            "least-connections"@,
            "latency-aware"@,
            "sticky-cid"@,
        ].contains(lower_seq(trim(lb_type)))),
{
    reveal_strlit("round-robin");
    reveal_strlit("consistent-hash");
    reveal_strlit("random");
    reveal_strlit("least-connections");
    reveal_strlit("latency-aware");
    reveal_strlit("sticky-cid");
    let t = lower_seq(trim(lb_type));
    assert("round-robin"@.len() == 11);
    assert("consistent-hash"@.len() == 15);
    assert("random"@.len() == 6);
    assert("least-connections"@.len() == 17);
    assert("latency-aware"@.len() == 13);
    assert("sticky-cid"@.len() == 10);
    if t == "consistent-hash"@ || t == "random"@ || t == "least-connections"@ || t
        == "latency-aware"@ || t == "sticky-cid"@ {
        assert(t != "round-robin"@);
    }
    if t == "random"@ || t == "least-connections"@ || t == "latency-aware"@ || t == "sticky-cid"@ {
        assert(t != "consistent-hash"@);
    }
    if t == "least-connections"@ || t == "latency-aware"@ || t == "sticky-cid"@ {
        assert(t != "random"@);
    }
    if t == "latency-aware"@ || t == "sticky-cid"@ {
        assert(t != "least-connections"@);
    }
    if t == "sticky-cid"@ {
        assert(t != "latency-aware"@);
    }
}

/// A load-balancing section normalizes exactly when its type is one of the
/// six supported names, after trimming and ASCII lowercasing.
pub proof fn lemma_load_balancing_supported_names(lb: LoadBalancing)
    ensures
        load_balancing_check(lb) is None <==> set![
            "round-robin"@,
            "consistent-hash"@,
            "random"@,
            "least-connections"@,
            "latency-aware"@,
            "sticky-cid"@,
        ].contains(lower_seq(trim(lb.lb_type@))),
{
    lemma_strategy_names(lb.lb_type@);
}

/// Timeouts of the runtime, as spans of time.
#[derive(Debug, Clone, Copy, PartialEq, Eq, Structural)]
pub struct RuntimeTimeoutPolicy {
    pub inflight_acquire_wait: TimeSpan,
    pub backend_request: TimeSpan,
    pub backend_connect: TimeSpan,
    pub backend_body_idle: TimeSpan,
    pub backend_body_total: TimeSpan,
    pub backend_total_request: TimeSpan,
    pub shutdown_drain: TimeSpan,
    pub client_body_idle: TimeSpan,
    pub h2_pool_idle: TimeSpan,
    pub backend_dns_refresh_interval: TimeSpan,
    pub quic_max_idle: TimeSpan,
}

pub open spec fn ms(v: u64) -> TimeSpan {
    TimeSpan { nanos: (v * 1_000_000) as u128 }
}

/// Every timeout is positive, and connect <= request <= body idle <= body
/// total <= total request.
pub open spec fn timeout_check(p: Performance) -> Option<ConfigErrorView> {
    or_else(nonzero_check("performance.backend_timeout_ms"@, p.backend_timeout_ms as int),
    or_else(nonzero_check("performance.backend_connect_timeout_ms"@, p.backend_connect_timeout_ms as int),
    or_else(nonzero_check("performance.backend_body_idle_timeout_ms"@, p.backend_body_idle_timeout_ms as int),
    or_else(nonzero_check("performance.backend_body_total_timeout_ms"@, p.backend_body_total_timeout_ms as int),
    or_else(nonzero_check("performance.backend_total_request_timeout_ms"@, p.backend_total_request_timeout_ms as int),
    or_else(nonzero_check("performance.shutdown_drain_timeout_ms"@, p.shutdown_drain_timeout_ms as int),
    or_else(nonzero_check("performance.client_body_idle_timeout_ms"@, p.client_body_idle_timeout_ms as int),
    or_else(nonzero_check("performance.h2_pool_idle_timeout_ms"@, p.h2_pool_idle_timeout_ms as int),
    or_else(nonzero_check("performance.backend_dns_refresh_interval_ms"@, p.backend_dns_refresh_interval_ms as int),
    or_else(nonzero_check("performance.quic_max_idle_timeout_ms"@, p.quic_max_idle_timeout_ms as int),
    or_else(invalid_if(p.backend_connect_timeout_ms > p.backend_timeout_ms,
        "performance.backend_connect_timeout_ms must be <= backend_timeout_ms"@),
    or_else(invalid_if(p.backend_timeout_ms > p.backend_body_idle_timeout_ms,
        "performance.backend_timeout_ms must be <= backend_body_idle_timeout_ms"@),
    or_else(invalid_if(p.backend_body_idle_timeout_ms > p.backend_body_total_timeout_ms,
        "performance.backend_body_idle_timeout_ms must be <= backend_body_total_timeout_ms"@),
    invalid_if(p.backend_body_total_timeout_ms > p.backend_total_request_timeout_ms,
        "performance.backend_body_total_timeout_ms must be <= backend_total_request_timeout_ms"@),
    )))))))))))))
}

pub open spec fn timeout_policy_of(p: Performance) -> RuntimeTimeoutPolicy {
    RuntimeTimeoutPolicy {
        inflight_acquire_wait: ms(p.inflight_acquire_wait_ms),
        backend_request: ms(p.backend_timeout_ms),
        backend_connect: ms(p.backend_connect_timeout_ms),
        backend_body_idle: ms(p.backend_body_idle_timeout_ms),
        backend_body_total: ms(p.backend_body_total_timeout_ms),
        backend_total_request: ms(p.backend_total_request_timeout_ms),
        shutdown_drain: ms(p.shutdown_drain_timeout_ms),
        client_body_idle: ms(p.client_body_idle_timeout_ms),
        h2_pool_idle: ms(p.h2_pool_idle_timeout_ms),
        backend_dns_refresh_interval: ms(p.backend_dns_refresh_interval_ms),
        quic_max_idle: ms(p.quic_max_idle_timeout_ms),
    }
}

impl RuntimeTimeoutPolicy {
    pub fn normalize(performance: &Performance) -> (r: Result<Self, RuntimeConfigError>)
        ensures
            err_of(r) == timeout_check(*performance),
            r matches Ok(t) ==> t == timeout_policy_of(*performance),
    {
        let p = performance;
        if let Err(e) = require_nonzero_u64("performance.backend_timeout_ms", p.backend_timeout_ms) {
            return Err(e);
        }
        if let Err(e) = require_nonzero_u64("performance.backend_connect_timeout_ms", p.backend_connect_timeout_ms) {
            return Err(e);
        }
        if let Err(e) = require_nonzero_u64("performance.backend_body_idle_timeout_ms", p.backend_body_idle_timeout_ms) {
            return Err(e);
        }
        if let Err(e) = require_nonzero_u64("performance.backend_body_total_timeout_ms", p.backend_body_total_timeout_ms) {
            return Err(e);
        }
        if let Err(e) = require_nonzero_u64("performance.backend_total_request_timeout_ms", p.backend_total_request_timeout_ms) {
            return Err(e);
        }
        if let Err(e) = require_nonzero_u64("performance.shutdown_drain_timeout_ms", p.shutdown_drain_timeout_ms) {
            return Err(e);
        }
        if let Err(e) = require_nonzero_u64("performance.client_body_idle_timeout_ms", p.client_body_idle_timeout_ms) {
            return Err(e);
        }
        if let Err(e) = require_nonzero_u64("performance.h2_pool_idle_timeout_ms", p.h2_pool_idle_timeout_ms) {
            return Err(e);
        }
        if let Err(e) = require_nonzero_u64("performance.backend_dns_refresh_interval_ms", p.backend_dns_refresh_interval_ms) {
            return Err(e);
        }
        if let Err(e) = require_nonzero_u64("performance.quic_max_idle_timeout_ms", p.quic_max_idle_timeout_ms) {
            return Err(e);
        }
        if p.backend_connect_timeout_ms > p.backend_timeout_ms {
            return Err(invalid_str("performance.backend_connect_timeout_ms must be <= backend_timeout_ms"));
        }
        if p.backend_timeout_ms > p.backend_body_idle_timeout_ms {
            return Err(invalid_str("performance.backend_timeout_ms must be <= backend_body_idle_timeout_ms"));
        }
        if p.backend_body_idle_timeout_ms > p.backend_body_total_timeout_ms {
            return Err(invalid_str("performance.backend_body_idle_timeout_ms must be <= backend_body_total_timeout_ms"));
        }
        if p.backend_body_total_timeout_ms > p.backend_total_request_timeout_ms {
            return Err(invalid_str("performance.backend_body_total_timeout_ms must be <= backend_total_request_timeout_ms"));
        }
        Ok(RuntimeTimeoutPolicy {
            inflight_acquire_wait: TimeSpan::from_millis(p.inflight_acquire_wait_ms),
            backend_request: TimeSpan::from_millis(p.backend_timeout_ms),
            backend_connect: TimeSpan::from_millis(p.backend_connect_timeout_ms),
            backend_body_idle: TimeSpan::from_millis(p.backend_body_idle_timeout_ms),
            backend_body_total: TimeSpan::from_millis(p.backend_body_total_timeout_ms),
            backend_total_request: TimeSpan::from_millis(p.backend_total_request_timeout_ms),
            shutdown_drain: TimeSpan::from_millis(p.shutdown_drain_timeout_ms),
            client_body_idle: TimeSpan::from_millis(p.client_body_idle_timeout_ms),
            h2_pool_idle: TimeSpan::from_millis(p.h2_pool_idle_timeout_ms),
            backend_dns_refresh_interval: TimeSpan::from_millis(p.backend_dns_refresh_interval_ms),
            quic_max_idle: TimeSpan::from_millis(p.quic_max_idle_timeout_ms),
        })
    }
}

/// Transport limits of the runtime.
#[derive(Debug, Clone, Copy, PartialEq, Eq, Structural)]
pub struct RuntimeTransportPolicy {
    pub worker_threads: usize,
    pub control_plane_threads: usize,
    pub packet_shards_per_worker: usize,
    pub packet_shard_queue_capacity: usize,
    pub packet_shard_queue_max_bytes: usize,
    pub reuseport: bool,
    pub pin_workers: bool,
    pub global_inflight_limit: usize,
    pub per_upstream_inflight_limit: usize,
    pub per_backend_inflight_limit: usize,
    pub udp_recv_buffer_bytes: usize,
    pub udp_send_buffer_bytes: usize,
    pub h2_pool_max_idle_per_backend: usize,
    pub backend_dns_refresh_enabled: bool,
    pub new_connections_per_sec: u32,
    pub new_connections_burst: u32,
    pub max_active_connections: usize,
    pub quic_initial_max_data: u64,
    pub quic_initial_max_stream_data: u64,
    pub quic_initial_max_streams_bidi: u64,
    pub quic_initial_max_streams_uni: u64,
    pub max_response_body_bytes: usize,
    pub max_request_body_bytes: usize,
    pub request_buffer_global_cap_bytes: usize,
    pub unknown_length_response_prebuffer_bytes: usize,
}

pub open spec fn dec(n: int) -> Seq<char> {
    decimal(n as nat)
}

/// Thread and shard counts, queue and buffer sizes, connection limits and
/// QUIC flow-control windows: each is checked in this order.
pub open spec fn transport_check_threads(p: Performance) -> Option<ConfigErrorView> {
    or_else(nonzero_check("performance.worker_threads"@, p.worker_threads as int),
    or_else(invalid_if(p.worker_threads > 1024, "performance.worker_threads="@ + dec(p.worker_threads as int) + " exceeds the maximum of 1024"@),
    or_else(nonzero_check("performance.control_plane_threads"@, p.control_plane_threads as int),
    or_else(invalid_if(p.control_plane_threads > 1024, "performance.control_plane_threads="@ + dec(p.control_plane_threads as int) + " exceeds the maximum of 1024"@),
    or_else(nonzero_check("performance.packet_shards_per_worker"@, p.packet_shards_per_worker as int),
    or_else(invalid_if(p.packet_shards_per_worker > 256, "performance.packet_shards_per_worker="@ + dec(p.packet_shards_per_worker as int) + " exceeds the maximum of 256"@),
    or_else(nonzero_check("performance.packet_shard_queue_capacity"@, p.packet_shard_queue_capacity as int),
    or_else(nonzero_check("performance.packet_shard_queue_max_bytes"@, p.packet_shard_queue_max_bytes as int),
    invalid_if(p.worker_threads > 1 && !p.reuseport, "performance.reuseport must be true when performance.worker_threads > 1"@),
    ))))))))
}

pub open spec fn transport_check_limits(p: Performance) -> Option<ConfigErrorView> {
    or_else(nonzero_check("performance.global_inflight_limit"@, p.global_inflight_limit as int),
    or_else(nonzero_check("performance.per_upstream_inflight_limit"@, p.per_upstream_inflight_limit as int),
    or_else(nonzero_check("performance.per_backend_inflight_limit"@, p.per_backend_inflight_limit as int),
    or_else(nonzero_check("performance.udp_recv_buffer_bytes"@, p.udp_recv_buffer_bytes as int),
    or_else(nonzero_check("performance.udp_send_buffer_bytes"@, p.udp_send_buffer_bytes as int),
    or_else(nonzero_check("performance.h2_pool_max_idle_per_backend"@, p.h2_pool_max_idle_per_backend as int),
    or_else(nonzero_check("performance.new_connections_per_sec"@, p.new_connections_per_sec as int),
    or_else(nonzero_check("performance.new_connections_burst"@, p.new_connections_burst as int),
    nonzero_check("performance.max_active_connections"@, p.max_active_connections as int),
    ))))))))
}

pub open spec fn transport_check_quic(p: Performance) -> Option<ConfigErrorView> {
    or_else(nonzero_check("performance.quic_initial_max_data"@, p.quic_initial_max_data as int),
    or_else(nonzero_check("performance.quic_initial_max_stream_data"@, p.quic_initial_max_stream_data as int),
    or_else(invalid_if(p.quic_initial_max_stream_data > p.quic_initial_max_data,
        "performance.quic_initial_max_stream_data ("@ + dec(p.quic_initial_max_stream_data as int) + ") must be <= quic_initial_max_data ("@ + dec(p.quic_initial_max_data as int) + ")"@),
    or_else(nonzero_check("performance.quic_initial_max_streams_bidi"@, p.quic_initial_max_streams_bidi as int),
    or_else(nonzero_check("performance.quic_initial_max_streams_uni"@, p.quic_initial_max_streams_uni as int),
    or_else(nonzero_check("performance.max_response_body_bytes"@, p.max_response_body_bytes as int),
    or_else(nonzero_check("performance.max_request_body_bytes"@, p.max_request_body_bytes as int),
    or_else(nonzero_check("performance.request_buffer_global_cap_bytes"@, p.request_buffer_global_cap_bytes as int),
    or_else(nonzero_check("performance.unknown_length_response_prebuffer_bytes"@, p.unknown_length_response_prebuffer_bytes as int),
    or_else(invalid_if(p.max_request_body_bytes > (p.quic_initial_max_stream_data as usize),
        "performance.max_request_body_bytes ("@ + dec(p.max_request_body_bytes as int) + ") must be <= quic_initial_max_stream_data ("@ + dec(p.quic_initial_max_stream_data as int) + ")"@),
    or_else(invalid_if(p.request_buffer_global_cap_bytes < p.max_request_body_bytes,
        "performance.request_buffer_global_cap_bytes ("@ + dec(p.request_buffer_global_cap_bytes as int) + ") must be >= max_request_body_bytes ("@ + dec(p.max_request_body_bytes as int) + ")"@),
    invalid_if(p.unknown_length_response_prebuffer_bytes > p.max_response_body_bytes,
        "performance.unknown_length_response_prebuffer_bytes ("@ + dec(p.unknown_length_response_prebuffer_bytes as int) + ") must be <= max_response_body_bytes ("@ + dec(p.max_response_body_bytes as int) + ")"@),
    )))))))))))
}

pub open spec fn transport_check(p: Performance) -> Option<ConfigErrorView> {
    or_else(transport_check_threads(p), or_else(transport_check_limits(p), transport_check_quic(p)))
}

pub open spec fn transport_policy_of(p: Performance) -> RuntimeTransportPolicy {
    RuntimeTransportPolicy {
        worker_threads: p.worker_threads,
        control_plane_threads: p.control_plane_threads,
        packet_shards_per_worker: p.packet_shards_per_worker,
        packet_shard_queue_capacity: p.packet_shard_queue_capacity,
        packet_shard_queue_max_bytes: p.packet_shard_queue_max_bytes,
        reuseport: p.reuseport,
        pin_workers: p.pin_workers,
        global_inflight_limit: p.global_inflight_limit,
        per_upstream_inflight_limit: p.per_upstream_inflight_limit,
        per_backend_inflight_limit: p.per_backend_inflight_limit,
        udp_recv_buffer_bytes: p.udp_recv_buffer_bytes,
        udp_send_buffer_bytes: p.udp_send_buffer_bytes,
        h2_pool_max_idle_per_backend: p.h2_pool_max_idle_per_backend,
        backend_dns_refresh_enabled: p.backend_dns_refresh_enabled,
        new_connections_per_sec: p.new_connections_per_sec,
        new_connections_burst: p.new_connections_burst,
        max_active_connections: p.max_active_connections,
        quic_initial_max_data: p.quic_initial_max_data,
        quic_initial_max_stream_data: p.quic_initial_max_stream_data,
        quic_initial_max_streams_bidi: p.quic_initial_max_streams_bidi,
        quic_initial_max_streams_uni: p.quic_initial_max_streams_uni,
        max_response_body_bytes: p.max_response_body_bytes,
        max_request_body_bytes: p.max_request_body_bytes,
        request_buffer_global_cap_bytes: p.request_buffer_global_cap_bytes,
        unknown_length_response_prebuffer_bytes: p.unknown_length_response_prebuffer_bytes,
    }
}

fn transport_threads(p: &Performance) -> (r: Result<(), RuntimeConfigError>)
    ensures
        err_of(r) == transport_check_threads(*p),
{
    if let Err(e) = require_nonzero_usize("performance.worker_threads", p.worker_threads) {
        return Err(e);
    }
    if p.worker_threads > 1024 {
        return Err(config_invalid(msg_num("performance.worker_threads=", p.worker_threads as u64, " exceeds the maximum of 1024")));
    }
    if let Err(e) = require_nonzero_usize("performance.control_plane_threads", p.control_plane_threads) {
        return Err(e);
    }
    if p.control_plane_threads > 1024 {
        return Err(config_invalid(msg_num("performance.control_plane_threads=", p.control_plane_threads as u64, " exceeds the maximum of 1024")));
    }
    if let Err(e) = require_nonzero_usize("performance.packet_shards_per_worker", p.packet_shards_per_worker) {
        return Err(e);
    }
    if p.packet_shards_per_worker > 256 {
        return Err(config_invalid(msg_num("performance.packet_shards_per_worker=", p.packet_shards_per_worker as u64, " exceeds the maximum of 256")));
    }
    if let Err(e) = require_nonzero_usize("performance.packet_shard_queue_capacity", p.packet_shard_queue_capacity) {
        return Err(e);
    }
    if let Err(e) = require_nonzero_usize("performance.packet_shard_queue_max_bytes", p.packet_shard_queue_max_bytes) {
        return Err(e);
    }
    if p.worker_threads > 1 && !p.reuseport {
        return Err(invalid_str("performance.reuseport must be true when performance.worker_threads > 1"));
    }
    Ok(())
}

fn transport_limits(p: &Performance) -> (r: Result<(), RuntimeConfigError>)
    ensures
        err_of(r) == transport_check_limits(*p),
{
    if let Err(e) = require_nonzero_usize("performance.global_inflight_limit", p.global_inflight_limit) {
        return Err(e);
    }
    if let Err(e) = require_nonzero_usize("performance.per_upstream_inflight_limit", p.per_upstream_inflight_limit) {
        return Err(e);
    }
    if let Err(e) = require_nonzero_usize("performance.per_backend_inflight_limit", p.per_backend_inflight_limit) {
        return Err(e);
    }
    if let Err(e) = require_nonzero_usize("performance.udp_recv_buffer_bytes", p.udp_recv_buffer_bytes) {
        return Err(e);
    }
    if let Err(e) = require_nonzero_usize("performance.udp_send_buffer_bytes", p.udp_send_buffer_bytes) {
        return Err(e);
    }
    if let Err(e) = require_nonzero_usize("performance.h2_pool_max_idle_per_backend", p.h2_pool_max_idle_per_backend) {
        return Err(e);
    }
    if let Err(e) = require_nonzero_u32("performance.new_connections_per_sec", p.new_connections_per_sec) {
        return Err(e);
    }
    if let Err(e) = require_nonzero_u32("performance.new_connections_burst", p.new_connections_burst) {
        return Err(e);
    }
    if let Err(e) = require_nonzero_usize("performance.max_active_connections", p.max_active_connections) {
        return Err(e);
    }
    Ok(())
}

fn transport_quic(p: &Performance) -> (r: Result<(), RuntimeConfigError>)
    ensures
        err_of(r) == transport_check_quic(*p),
{
    if let Err(e) = require_nonzero_u64("performance.quic_initial_max_data", p.quic_initial_max_data) {
        return Err(e);
    }
    if let Err(e) = require_nonzero_u64("performance.quic_initial_max_stream_data", p.quic_initial_max_stream_data) {
        return Err(e);
    }
    if p.quic_initial_max_stream_data > p.quic_initial_max_data {
        return Err(config_invalid(msg_num2("performance.quic_initial_max_stream_data (", p.quic_initial_max_stream_data, ") must be <= quic_initial_max_data (", p.quic_initial_max_data, ")")));
    }
    if let Err(e) = require_nonzero_u64("performance.quic_initial_max_streams_bidi", p.quic_initial_max_streams_bidi) {
        return Err(e);
    }
    if let Err(e) = require_nonzero_u64("performance.quic_initial_max_streams_uni", p.quic_initial_max_streams_uni) {
        return Err(e);
    }
    if let Err(e) = require_nonzero_usize("performance.max_response_body_bytes", p.max_response_body_bytes) {
        return Err(e);
    }
    if let Err(e) = require_nonzero_usize("performance.max_request_body_bytes", p.max_request_body_bytes) {
        return Err(e);
    }
    if let Err(e) = require_nonzero_usize("performance.request_buffer_global_cap_bytes", p.request_buffer_global_cap_bytes) {
        return Err(e);
    }
    if let Err(e) = require_nonzero_usize("performance.unknown_length_response_prebuffer_bytes", p.unknown_length_response_prebuffer_bytes) {
        return Err(e);
    }
    if p.max_request_body_bytes > p.quic_initial_max_stream_data as usize {
        return Err(config_invalid(msg_num2("performance.max_request_body_bytes (", p.max_request_body_bytes as u64, ") must be <= quic_initial_max_stream_data (", p.quic_initial_max_stream_data, ")")));
    }
    if p.request_buffer_global_cap_bytes < p.max_request_body_bytes {
        return Err(config_invalid(msg_num2("performance.request_buffer_global_cap_bytes (", p.request_buffer_global_cap_bytes as u64, ") must be >= max_request_body_bytes (", p.max_request_body_bytes as u64, ")")));
    }
    if p.unknown_length_response_prebuffer_bytes > p.max_response_body_bytes {
        return Err(config_invalid(msg_num2("performance.unknown_length_response_prebuffer_bytes (", p.unknown_length_response_prebuffer_bytes as u64, ") must be <= max_response_body_bytes (", p.max_response_body_bytes as u64, ")")));
    }
    Ok(())
}

impl RuntimeTransportPolicy {
    pub fn normalize(performance: &Performance) -> (r: Result<Self, RuntimeConfigError>)
        ensures
            err_of(r) == transport_check(*performance),
            r matches Ok(t) ==> t == transport_policy_of(*performance),
    {
        let p = performance;
        if let Err(e) = transport_threads(p) {
            return Err(e);
        }
        if let Err(e) = transport_limits(p) {
            return Err(e);
        }
        if let Err(e) = transport_quic(p) {
            return Err(e);
        }
        Ok(RuntimeTransportPolicy {
            worker_threads: p.worker_threads,
            control_plane_threads: p.control_plane_threads,
            packet_shards_per_worker: p.packet_shards_per_worker,
            packet_shard_queue_capacity: p.packet_shard_queue_capacity,
            packet_shard_queue_max_bytes: p.packet_shard_queue_max_bytes,
            reuseport: p.reuseport,
            pin_workers: p.pin_workers,
            global_inflight_limit: p.global_inflight_limit,
            per_upstream_inflight_limit: p.per_upstream_inflight_limit,
            per_backend_inflight_limit: p.per_backend_inflight_limit,
            udp_recv_buffer_bytes: p.udp_recv_buffer_bytes,
            udp_send_buffer_bytes: p.udp_send_buffer_bytes,
            h2_pool_max_idle_per_backend: p.h2_pool_max_idle_per_backend,
            backend_dns_refresh_enabled: p.backend_dns_refresh_enabled,
            new_connections_per_sec: p.new_connections_per_sec,
            new_connections_burst: p.new_connections_burst,
            max_active_connections: p.max_active_connections,
            quic_initial_max_data: p.quic_initial_max_data,
            quic_initial_max_stream_data: p.quic_initial_max_stream_data,
            quic_initial_max_streams_bidi: p.quic_initial_max_streams_bidi,
            quic_initial_max_streams_uni: p.quic_initial_max_streams_uni,
            max_response_body_bytes: p.max_response_body_bytes,
            max_request_body_bytes: p.max_request_body_bytes,
            request_buffer_global_cap_bytes: p.request_buffer_global_cap_bytes,
            unknown_length_response_prebuffer_bytes: p.unknown_length_response_prebuffer_bytes,
        })
    }
}

/// The load-balancing strategy of an upstream and its request key.
#[derive(Debug, Clone, PartialEq, Eq)]
pub struct RuntimeLoadBalancingPolicy {
    pub strategy: RuntimeLoadBalancingStrategy,
    pub key: Option<String>,
}

pub open spec fn load_balancing_check(lb: LoadBalancing) -> Option<ConfigErrorView> {
    invalid_if(
        spec_strategy_of(lb.lb_type@) == RuntimeLoadBalancingStrategy::Other,
        "unsupported load balancing type '"@ + lb.lb_type@ + "'"@,
    )
}

impl RuntimeLoadBalancingPolicy {
    pub fn normalize(load_balancing: &LoadBalancing) -> (r: Result<Self, RuntimeConfigError>)
        ensures
            err_of(r) == load_balancing_check(*load_balancing),
            r matches Ok(p) ==> p.strategy == spec_strategy_of(load_balancing.lb_type@)
                && opt_string_view(p.key) == spec_normalize_optional(
                opt_string_view(load_balancing.key),
            ),
    {
        let strategy = RuntimeLoadBalancingStrategy::from_lb_type(load_balancing.lb_type.as_str());
        if strategy == RuntimeLoadBalancingStrategy::Other {
            return Err(config_invalid(msg_text("unsupported load balancing type '", load_balancing.lb_type.as_str(), "'")));
        }
        let key = match &load_balancing.key {
            Some(k) => normalize_optional_string(Some(k.as_str())),
            None => None,
        };
        Ok(RuntimeLoadBalancingPolicy { strategy, key })
    }
}

/// A scoped rate limit, ready for the runtime.
#[derive(Debug, Clone, PartialEq, Eq)]
pub struct RuntimeScopedRateLimitPolicy {
    pub name: String,
    pub scope: ScopedRateLimitScope,
    pub requests_per_sec: u32,
    pub burst: u32,
    pub key: Option<String>,
    pub route_allowlist: Vec<String>,
    pub idle_ttl: TimeSpan,
}

/// `resilience.scoped_rate_limits['<name>']<suffix>`.
pub open spec fn scoped_msg(name: Seq<char>, suffix: Seq<char>) -> Seq<char> {
    "resilience.scoped_rate_limits['"@ + name + suffix
}

pub open spec fn scoped_key_check(rule: ScopedRateLimit, name: Seq<char>) -> Option<ConfigErrorView> {
    let key = spec_normalize_optional(opt_string_view(rule.key));
    match rule.scope {
        ScopedRateLimitScope::Route => invalid_if(
            key is Some,
            scoped_msg(name, "'].key is invalid for scope=route"@),
        ),
        ScopedRateLimitScope::Tenant => match key {
            None => Some(
                ConfigErrorView::Invalid(scoped_msg(name, "'].key is required for scope=tenant"@)),
            ),
            Some(k) => invalid_if(
                !spec_is_valid_request_key_spec(k),
                scoped_msg(name, "'].key must be a supported request key spec"@),
            ),
        },
        _ => match key {
            None => None,
            Some(k) => invalid_if(
                !spec_is_valid_request_key_spec(k),
                scoped_msg(name, "'].key must be a supported request key spec"@),
            ),
        },
    }
}

/// A scoped rate limit needs a non-blank name, positive rate, burst and idle
/// TTL, no blank route names, and a key that fits its scope.
pub open spec fn scoped_check(rule: ScopedRateLimit) -> Option<ConfigErrorView> {
    let name = trim(rule.name@);
    if name.len() == 0 {
        Some(ConfigErrorView::Invalid("resilience.scoped_rate_limits[].name must be non-empty"@))
    } else {
        or_else(invalid_if(rule.requests_per_sec == 0, scoped_msg(name, "'].requests_per_sec must be greater than 0"@)),
        or_else(invalid_if(rule.burst == 0, scoped_msg(name, "'].burst must be greater than 0"@)),
        or_else(invalid_if(rule.idle_ttl_secs == 0, scoped_msg(name, "'].idle_ttl_secs must be greater than 0"@)),
        or_else(invalid_if(
            spec_normalize_strings(strings_view(rule.route_allowlist@)).len() != rule.route_allowlist@.len(),
            scoped_msg(name, "'].route_allowlist must not contain empty values"@)),
        scoped_key_check(rule, name)))))
    }
}

/// The normalized form of a valid rule: its name as configured, the
/// trimmed key, the route names trimmed, and the idle TTL in seconds.
pub open spec fn scoped_policy_matches(p: RuntimeScopedRateLimitPolicy, rule: ScopedRateLimit) -> bool {
    &&& p.name == rule.name
    &&& p.scope == rule.scope
    &&& p.requests_per_sec == rule.requests_per_sec
    &&& p.burst == rule.burst
    &&& opt_string_view(p.key) == spec_normalize_optional(opt_string_view(rule.key))
    &&& strings_view(p.route_allowlist@) == spec_normalize_strings(strings_view(rule.route_allowlist@))
    &&& p.idle_ttl.nanos == rule.idle_ttl_secs * 1_000_000_000
}

fn scoped_error(name: &Vec<char>, suffix: &str) -> (e: RuntimeConfigError)
    ensures
        e@ == ConfigErrorView::Invalid(scoped_msg(name@, suffix@)),
{
    let n = string_of(name.as_slice());
    config_invalid(msg_text("resilience.scoped_rate_limits['", n.as_str(), suffix))
}

impl RuntimeScopedRateLimitPolicy {
    pub fn normalize(rule: &ScopedRateLimit) -> (r: Result<Self, RuntimeConfigError>)
        ensures
            err_of(r) == scoped_check(*rule),
            r matches Ok(p) ==> scoped_policy_matches(p, *rule),
    {
        let raw = chars_of(rule.name.as_str());
        let name = trimmed(raw.as_slice());
        if name.len() == 0 {
            return Err(invalid_str("resilience.scoped_rate_limits[].name must be non-empty"));
        }
        if rule.requests_per_sec == 0 {
            return Err(scoped_error(&name, "'].requests_per_sec must be greater than 0"));
        }
        if rule.burst == 0 {
            return Err(scoped_error(&name, "'].burst must be greater than 0"));
        }
        if rule.idle_ttl_secs == 0 {
            return Err(scoped_error(&name, "'].idle_ttl_secs must be greater than 0"));
        }
        let route_allowlist = normalize_string_vec(rule.route_allowlist.as_slice());
        proof {
            assert(strings_view(route_allowlist@).len() == route_allowlist@.len());
        }
        if route_allowlist.len() != rule.route_allowlist.len() {
            return Err(scoped_error(&name, "'].route_allowlist must not contain empty values"));
        }
        let key = match &rule.key {
            Some(k) => normalize_optional_string(Some(k.as_str())),
            None => None,
        };
        match rule.scope {
            ScopedRateLimitScope::Route => {
                if key.is_some() {
                    return Err(scoped_error(&name, "'].key is invalid for scope=route"));
                }
            },
            ScopedRateLimitScope::Tenant => {
                match &key {
                    None => {
                        return Err(scoped_error(&name, "'].key is required for scope=tenant"));
                    },
                    Some(k) => {
                        if !is_valid_request_key_spec(k.as_str()) {
                            return Err(scoped_error(&name, "'].key must be a supported request key spec"));
                        }
                    },
                }
            },
            _ => {
                if let Some(k) = &key {
                    if !is_valid_request_key_spec(k.as_str()) {
                        return Err(scoped_error(&name, "'].key must be a supported request key spec"));
                    }
                }
            },
        }
        Ok(RuntimeScopedRateLimitPolicy {
            name: rule.name.clone(),
            scope: rule.scope,
            requests_per_sec: rule.requests_per_sec,
            burst: rule.burst,
            key,
            route_allowlist,
            idle_ttl: TimeSpan::from_secs(rule.idle_ttl_secs),
        })
    }
}

/// The scoped rate limits of the runtime, in configuration order.
#[derive(Debug, Clone, PartialEq, Eq)]
pub struct RuntimeRateLimitPolicy {
    pub scoped_limits: Vec<RuntimeScopedRateLimitPolicy>,
}

pub open spec fn names_of(rules: Seq<ScopedRateLimit>) -> Seq<Seq<char>> {
    rules.map_values(|r: ScopedRateLimit| r.name@)
}

/// Every rule is valid, checked in order, and no rule repeats the name of
/// an earlier one.
pub open spec fn rate_limit_check(rules: Seq<ScopedRateLimit>) -> Option<ConfigErrorView>
    decreases rules.len(),
{
    if rules.len() == 0 {
        None
    } else {
        let prev = rules.drop_last();
        let last = rules.last();
        or_else(rate_limit_check(prev),
        or_else(scoped_check(last),
        invalid_if(names_of(prev).contains(last.name@),
            "resilience.scoped_rate_limits contains duplicate rule name '"@ + last.name@ + "'"@)))
    }
}

/// A failure among the first rules is the failure of all of them.
proof fn lemma_rate_limit_check_prefix(rules: Seq<ScopedRateLimit>, k: int)
    requires
        0 <= k <= rules.len(),
        rate_limit_check(rules.take(k)) is Some,
    ensures
        rate_limit_check(rules) == rate_limit_check(rules.take(k)),
    decreases rules.len() - k,
{
    if k == rules.len() {
        assert(rules.take(k) =~= rules);
    } else {
        let prev = rules.drop_last();
        assert(prev.take(k) =~= rules.take(k));
        lemma_rate_limit_check_prefix(prev, k);
    }
}

fn name_seen(seen: &Vec<RuntimeScopedRateLimitPolicy>, name: &String) -> (b: bool)
    ensures
        b == exists|i: int| 0 <= i < seen@.len() && #[trigger] seen@[i].name@ == name@,
{
    let mut i: usize = 0;
    while i < seen.len()
        invariant
            0 <= i <= seen.len(),
            forall|j: int| 0 <= j < i ==> #[trigger] seen@[j].name@ != name@,
        decreases seen.len() - i,
    {
        if seen[i].name == *name {
            return true;
        }
        i += 1;
    }
    false
}

impl RuntimeRateLimitPolicy {
    pub fn normalize(resilience: &Resilience) -> (r: Result<Self, RuntimeConfigError>)
        ensures
            err_of(r) == rate_limit_check(resilience.scoped_rate_limits@),
            r matches Ok(p) ==> p.scoped_limits@.len() == resilience.scoped_rate_limits@.len()
                && forall|i: int|
                0 <= i < p.scoped_limits@.len() ==> scoped_policy_matches(
                    #[trigger] p.scoped_limits@[i],
                    resilience.scoped_rate_limits@[i],
                ),
    {
        let rules = &resilience.scoped_rate_limits;
        let mut scoped_limits: Vec<RuntimeScopedRateLimitPolicy> = Vec::new();
        let mut i: usize = 0;
        while i < rules.len()
            invariant
                0 <= i <= rules.len(),
                rules@ == resilience.scoped_rate_limits@,
                rate_limit_check(rules@.take(i as int)) is None,
                scoped_limits@.len() == i,
                forall|j: int|
                    0 <= j < i ==> scoped_policy_matches(#[trigger] scoped_limits@[j], rules@[j]),
            decreases rules.len() - i,
        {
            let ghost pre = rules@.take(i as int);
            proof {
                assert(rules@.take(i + 1).drop_last() =~= pre);
                assert(rules@.take(i + 1).last() == rules@[i as int]);
            }
            let normalized = match RuntimeScopedRateLimitPolicy::normalize(&rules[i]) {
                Ok(n) => n,
                Err(e) => {
                    proof {
                        lemma_rate_limit_check_prefix(rules@, i + 1);
                    }
                    return Err(e);
                },
            };
            if name_seen(&scoped_limits, &normalized.name) {
                proof {
                    let j = choose|j: int| 0 <= j < scoped_limits@.len() && #[trigger] scoped_limits@[j].name@ == normalized.name@;
                    assert(names_of(pre)[j] == rules@[j].name@);
                    assert(names_of(pre).contains(rules@[i as int].name@));
                    lemma_rate_limit_check_prefix(rules@, i + 1);
                }
                return Err(config_invalid(msg_text("resilience.scoped_rate_limits contains duplicate rule name '", normalized.name.as_str(), "'")));
            }
            proof {
                if names_of(pre).contains(rules@[i as int].name@) {
                    let j = choose|j: int| 0 <= j < names_of(pre).len() && names_of(pre)[j] == rules@[i as int].name@;
                    assert(scoped_limits@[j].name@ == normalized.name@);
                }
            }
            scoped_limits.push(normalized);
            i += 1;
        }
        proof {
            assert(rules@.take(rules.len() as int) =~= rules@);
        }
        Ok(RuntimeRateLimitPolicy { scoped_limits })
    }
}

/// Scoped rate-limit rules keep the order of configuration, and a rule name
/// is used at most once among valid rules.
pub proof fn lemma_rate_limit_names_unique(rules: Seq<ScopedRateLimit>)
    requires
        rate_limit_check(rules) is None,
    ensures
        forall|i: int, j: int|
            0 <= i < j < rules.len() ==> #[trigger] rules[i].name@ != #[trigger] rules[j].name@,
    decreases rules.len(),
{
    if rules.len() > 0 {
        let prev = rules.drop_last();
        lemma_rate_limit_names_unique(prev);
        assert forall|i: int, j: int| 0 <= i < j < rules.len() implies #[trigger] rules[i].name@
            != #[trigger] rules[j].name@ by {
            if j == rules.len() - 1 {
                assert(names_of(prev)[i] == rules[i].name@);
            } else {
                assert(prev[i] == rules[i] && prev[j] == rules[j]);
            }
        }
    }
}

/// The error of rule `i` on its own: its own check, then whether an
/// earlier rule has its name (compared as written, untrimmed).
pub open spec fn rule_error(rules: Seq<ScopedRateLimit>, i: int) -> Option<ConfigErrorView> {
    or_else(scoped_check(rules[i]),
    invalid_if(names_of(rules.take(i)).contains(rules[i].name@),
        "resilience.scoped_rate_limits contains duplicate rule name '"@ + rules[i].name@ + "'"@))
}

/// The scoped rate-limit rules are checked one at a time, in order: the
/// rules pass exactly when every rule is valid on its own and no two share
/// a name, and otherwise the error is that of the first rule that is
/// invalid or repeats an earlier rule's name.
pub proof fn lemma_rate_limit_first_failure(rules: Seq<ScopedRateLimit>)
    ensures
        rate_limit_check(rules) is None <==> forall|i: int|
            0 <= i < rules.len() ==> (#[trigger] rule_error(rules, i)) is None,
        rate_limit_check(rules) is None <==> (forall|i: int|
            0 <= i < rules.len() ==> (#[trigger] scoped_check(rules[i])) is None) && (forall|
            i: int,
            j: int,
        | 0 <= i < j < rules.len() ==> #[trigger] rules[i].name@ != #[trigger] rules[j].name@),
        rate_limit_check(rules) is Some ==> exists|i: int|
            0 <= i < rules.len() && #[trigger] rule_error(rules, i) is Some && rate_limit_check(rules)
                == rule_error(rules, i) && forall|j: int| 0 <= j < i ==> (#[trigger] rule_error(rules, j)) is None,
    decreases rules.len(),
{
    if rules.len() > 0 {
        let prev = rules.drop_last();
        let n = rules.len() - 1;
        lemma_rate_limit_first_failure(prev);
        assert(prev =~= rules.take(n));
        assert forall|j: int| 0 <= j < n implies #[trigger] rule_error(prev, j) == rule_error(rules, j) by {
            assert(prev[j] == rules[j]);
            assert(prev.take(j) =~= rules.take(j));
        }
        assert(rate_limit_check(rules) == or_else(rate_limit_check(prev), rule_error(rules, n)));
        if rate_limit_check(prev) is Some {
            let i = choose|i: int|
                0 <= i < prev.len() && #[trigger] rule_error(prev, i) is Some && rate_limit_check(prev)
                    == rule_error(prev, i) && forall|j: int| 0 <= j < i ==> (#[trigger] rule_error(prev, j)) is None;
            assert(rule_error(rules, i) == rule_error(prev, i));
            assert forall|j: int| 0 <= j < i implies (#[trigger] rule_error(rules, j)) is None by {
                assert(rule_error(prev, j) is None);
            }
        } else {
            assert forall|j: int| 0 <= j < n implies (#[trigger] rule_error(rules, j)) is None by {
                assert(rule_error(prev, j) is None);
            }
            assert(rate_limit_check(rules) == rule_error(rules, n));
        }
        if rate_limit_check(rules) is None {
            assert forall|i: int| 0 <= i < rules.len() implies (#[trigger] rule_error(rules, i)) is None by {
                if i < n {
                    assert(rule_error(prev, i) is None);
                }
            }
        } else if forall|i: int| 0 <= i < rules.len() ==> (#[trigger] rule_error(rules, i)) is None {
            assert forall|j: int| 0 <= j < prev.len() implies (#[trigger] rule_error(prev, j)) is None by {
                assert(rule_error(rules, j) is None);
            }
            assert(rule_error(rules, n) is None);
        }
        // Passing rules: each rule is valid and no later name repeats an earlier one.
        assert((forall|i: int| 0 <= i < rules.len() ==> (#[trigger] rule_error(rules, i)) is None)
            <==> (forall|i: int| 0 <= i < rules.len() ==> (#[trigger] scoped_check(rules[i])) is None)
            && (forall|i: int, j: int|
            0 <= i < j < rules.len() ==> #[trigger] rules[i].name@ != #[trigger] rules[j].name@)) by {
            if forall|i: int| 0 <= i < rules.len() ==> (#[trigger] rule_error(rules, i)) is None {
                assert forall|i: int| 0 <= i < rules.len() implies (#[trigger] scoped_check(rules[i])) is None by {
                    assert(rule_error(rules, i) is None);
                }
                assert forall|i: int, j: int| 0 <= i < j < rules.len() implies #[trigger] rules[i].name@
                    != #[trigger] rules[j].name@ by {
                    assert(rule_error(rules, j) is None);
                    assert(names_of(rules.take(j))[i] == rules[i].name@);
                }
            }
            if (forall|i: int| 0 <= i < rules.len() ==> (#[trigger] scoped_check(rules[i])) is None)
                && (forall|i: int, j: int|
                0 <= i < j < rules.len() ==> #[trigger] rules[i].name@ != #[trigger] rules[j].name@) {
                assert forall|i: int| 0 <= i < rules.len() implies (#[trigger] rule_error(rules, i)) is None by {
                    assert(scoped_check(rules[i]) is None);
                    if names_of(rules.take(i)).contains(rules[i].name@) {
                        let k = choose|k: int| 0 <= k < names_of(rules.take(i)).len()
                            && names_of(rules.take(i))[k] == rules[i].name@;
                        assert(rules[k].name@ != rules[i].name@);
                    }
                }
            }
        }
    }
}

/// The protocol policy of the runtime: the configured protocol settings
/// with their method and path lists trimmed.
#[derive(Debug, Clone, PartialEq, Eq)]
pub struct RuntimeProtocolPolicy(pub ProtocolPolicy);

/// Admission, resilience and protocol policies of the runtime.
#[derive(Debug, Clone)]
pub struct RuntimeAdmissionPolicy {
    pub adaptive_admission: AdaptiveAdmission,
    pub route_queue: RouteQueue,
    pub circuit_breaker: CircuitBreaker,
    pub hedging: Hedging,
    pub retry_budget: RetryBudget,
    pub brownout: Brownout,
    pub watchdog: Watchdog,
    pub protocol: RuntimeProtocolPolicy,
}

/// Adaptive admission bounds (a positive minimum; a maximum, if any, that is
/// positive, at least the minimum and at most the global in-flight limit)
/// and positive route queue limits.
pub open spec fn admission_limits_check(r: Resilience, t: RuntimeTransportPolicy) -> Option<ConfigErrorView> {
    let aa = r.adaptive_admission;
    let rq = r.route_queue;
    or_else(invalid_if(aa.min_limit == 0, "resilience.adaptive_admission.min_limit must be greater than 0"@),
    or_else(match aa.max_limit {
        None => None,
        Some(m) => or_else(invalid_if(m == 0, "resilience.adaptive_admission.max_limit must be greater than 0"@),
            or_else(invalid_if(m < aa.min_limit, "resilience.adaptive_admission.max_limit ("@ + dec(m as int) + ") must be >= min_limit ("@ + dec(aa.min_limit as int) + ")"@),
            invalid_if(m > t.global_inflight_limit, "resilience.adaptive_admission.max_limit ("@ + dec(m as int) + ") must be <= performance.global_inflight_limit ("@ + dec(t.global_inflight_limit as int) + ")"@))),
    },
    or_else(nonzero_check("resilience.adaptive_admission.decrease_step"@, aa.decrease_step as int),
    or_else(nonzero_check("resilience.adaptive_admission.increase_step"@, aa.increase_step as int),
    or_else(nonzero_check("resilience.route_queue.default_cap"@, rq.default_cap as int),
    or_else(nonzero_check("resilience.route_queue.global_cap"@, rq.global_cap as int),
    or_else(invalid_if(rq.shed_retry_after_seconds == 0, "resilience.route_queue.shed_retry_after_seconds must be greater than 0"@),
    invalid_if(exists|i: int| 0 <= i < rq.caps@.len() && #[trigger] rq.caps@[i].1 == 0, "resilience.route_queue.caps values must be greater than 0"@),
    )))))))
}

pub open spec fn starts_with_slash(s: Seq<char>) -> bool {
    s.len() > 0 && s[0] == '/'
}

/// Method and path lists without blank entries, valid method tokens,
/// `/`-prefixed denied paths, positive header limits, CONNECT targets only
/// when CONNECT is allowed (ports 1-65535, `host:port` authorities), and
/// safe early-data methods whenever 0-RTT is allowed.
pub open spec fn protocol_check(pp: ProtocolPolicy) -> Option<ConfigErrorView> {
    let early = spec_normalize_strings(strings_view(pp.early_data_safe_methods@));
    let allowed = spec_normalize_strings(strings_view(pp.allowed_methods@));
    let denied = spec_normalize_strings(strings_view(pp.denied_path_prefixes@));
    or_else(invalid_if(early.len() != pp.early_data_safe_methods@.len(), "resilience.protocol.early_data_safe_methods must not contain empty values"@),
    or_else(invalid_if(allowed.len() != pp.allowed_methods@.len(), "resilience.protocol.allowed_methods must not contain empty values"@),
    or_else(invalid_if(exists|i: int| 0 <= i < allowed.len() && !spec_is_valid_http_token(#[trigger] vstd::utf8::encode_utf8(allowed[i])),
        "resilience.protocol.allowed_methods must contain valid HTTP method tokens"@),
    or_else(invalid_if(denied.len() != pp.denied_path_prefixes@.len() || exists|i: int| 0 <= i < denied.len() && !starts_with_slash(#[trigger] denied[i]),
        "resilience.protocol.denied_path_prefixes must contain '/'-prefixed paths"@),
    or_else(nonzero_check("resilience.protocol.max_headers_count"@, pp.max_headers_count as int),
    or_else(nonzero_check("resilience.protocol.max_headers_bytes"@, pp.max_headers_bytes as int),
    or_else(invalid_if(!pp.allow_connect && (pp.connect_allowed_ports@.len() > 0 || pp.connect_allowed_authorities@.len() > 0),
        "resilience.protocol.connect_allowed_ports/connect_allowed_authorities require allow_connect=true"@),
    or_else(invalid_if(pp.connect_allowed_ports@.contains(0u16), "resilience.protocol.connect_allowed_ports must contain ports in range 1-65535"@),
    or_else(invalid_if(exists|i: int| 0 <= i < pp.connect_allowed_authorities@.len() && !spec_is_valid_connect_authority(#[trigger] pp.connect_allowed_authorities@[i]@),
        "resilience.protocol.connect_allowed_authorities must contain authority-form host:port targets"@),
    invalid_if(pp.allow_0rtt && early.len() == 0, "resilience.protocol.early_data_safe_methods must be non-empty when allow_0rtt=true"@),
    )))))))))
}

/// The normalized protocol policy: the three lists trimmed, the rest kept.
pub open spec fn protocol_normalized(n: ProtocolPolicy, pp: ProtocolPolicy) -> bool {
    &&& n.same_scalars(&pp)
    &&& strings_view(n.early_data_safe_methods@) == spec_normalize_strings(strings_view(pp.early_data_safe_methods@))
    &&& strings_view(n.allowed_methods@) == spec_normalize_strings(strings_view(pp.allowed_methods@))
    &&& strings_view(n.denied_path_prefixes@) == spec_normalize_strings(strings_view(pp.denied_path_prefixes@))
}

/// Circuit breaker, hedging, retry budget, brownout and watchdog limits;
/// a restart hook is refused as an unsupported policy.
pub open spec fn resilience_tail_check(r: Resilience) -> Option<ConfigErrorView> {
    let cb = r.circuit_breaker;
    let rb = r.retry_budget;
    let bo = r.brownout;
    let wd = r.watchdog;
    or_else(invalid_if(cb.failure_threshold == 0, "resilience.circuit_breaker.failure_threshold must be greater than 0"@),
    or_else(invalid_if(cb.open_ms == 0, "resilience.circuit_breaker.open_ms must be greater than 0"@),
    or_else(invalid_if(cb.half_open_max_probes == 0, "resilience.circuit_breaker.half_open_max_probes must be greater than 0"@),
    or_else(invalid_if(r.hedging.enabled && r.hedging.delay_ms == 0, "resilience.hedging: delay_ms must be > 0 when hedging is enabled"@),
    or_else(invalid_if(rb.ratio_percent > 100, "resilience.retry_budget.ratio_percent must be <= 100"@),
    or_else(invalid_if(exists|i: int| 0 <= i < rb.per_route_ratio_percent@.len() && #[trigger] rb.per_route_ratio_percent@[i].1 > 100,
        "resilience.retry_budget.per_route_ratio_percent values must be <= 100"@),
    or_else(invalid_if(bo.trigger_inflight_percent > 100 || bo.recover_inflight_percent > 100, "resilience.brownout inflight percentages must be <= 100"@),
    or_else(invalid_if(bo.recover_inflight_percent >= bo.trigger_inflight_percent, "resilience.brownout.recover_inflight_percent must be < trigger_inflight_percent"@),
    or_else(nonzero_check("resilience.watchdog.check_interval_ms"@, wd.check_interval_ms as int),
    or_else(nonzero_check("resilience.watchdog.poll_stall_timeout_ms"@, wd.poll_stall_timeout_ms as int),
    or_else(invalid_if(wd.timeout_error_rate_percent > 100, "resilience.watchdog.timeout_error_rate_percent must be <= 100"@),
    or_else(nonzero_check("resilience.watchdog.min_requests_per_window"@, wd.min_requests_per_window as int),
    or_else(invalid_if(wd.overload_inflight_percent > 100, "resilience.watchdog.overload_inflight_percent must be <= 100"@),
    or_else(invalid_if(wd.unhealthy_consecutive_windows == 0, "resilience.watchdog.unhealthy_consecutive_windows must be greater than 0"@),
    or_else(nonzero_check("resilience.watchdog.drain_grace_ms"@, wd.drain_grace_ms as int),
    or_else(nonzero_check("resilience.watchdog.restart_cooldown_ms"@, wd.restart_cooldown_ms as int),
    or_else(invalid_if(wd.restart_command@.len() > 0 && trim(wd.restart_command@[0]@).len() == 0,
        "resilience.watchdog.restart_command[0] must be a non-empty executable path"@),
    if wd.restart_hook is Some {
        Some(ConfigErrorView::Unsupported("resilience.watchdog.restart_hook is deprecated and unsupported; use restart_command instead"@))
    } else {
        None
    },
    )))))))))))))))))
}

pub open spec fn admission_check(r: Resilience, t: RuntimeTransportPolicy) -> Option<ConfigErrorView> {
    or_else(admission_limits_check(r, t), or_else(protocol_check(r.protocol), resilience_tail_check(r)))
}

fn any_zero_cap(caps: &Vec<(String, usize)>) -> (b: bool)
    ensures
        b == exists|i: int| 0 <= i < caps@.len() && #[trigger] caps@[i].1 == 0,
{
    let mut i: usize = 0;
    while i < caps.len()
        invariant
            0 <= i <= caps.len(),
            forall|j: int| 0 <= j < i ==> #[trigger] caps@[j].1 != 0,
        decreases caps.len() - i,
    {
        if caps[i].1 == 0 {
            return true;
        }
        i += 1;
    }
    false
}

fn any_ratio_over_100(ratios: &Vec<(String, u32)>) -> (b: bool)
    ensures
        b == exists|i: int| 0 <= i < ratios@.len() && #[trigger] ratios@[i].1 > 100,
{
    let mut i: usize = 0;
    while i < ratios.len()
        invariant
            0 <= i <= ratios.len(),
            forall|j: int| 0 <= j < i ==> #[trigger] ratios@[j].1 <= 100,
        decreases ratios.len() - i,
    {
        if ratios[i].1 > 100 {
            return true;
        }
        i += 1;
    }
    false
}

fn any_invalid_token(methods: &Vec<String>) -> (b: bool)
    ensures
        b == exists|i: int| 0 <= i < methods@.len() && !spec_is_valid_http_token(
            #[trigger] vstd::utf8::encode_utf8(strings_view(methods@)[i]),
        ),
{
    let mut i: usize = 0;
    while i < methods.len()
        invariant
            0 <= i <= methods.len(),
            forall|j: int| 0 <= j < i ==> spec_is_valid_http_token(
                #[trigger] vstd::utf8::encode_utf8(strings_view(methods@)[j]),
            ),
        decreases methods.len() - i,
    {
        let ok = is_valid_http_token(methods[i].as_str());
        proof {
            assert(strings_view(methods@)[i as int] == methods@[i as int]@);
        }
        if !ok {
            return true;
        }
        i += 1;
    }
    false
}

fn any_not_slash_prefixed(paths: &Vec<String>) -> (b: bool)
    ensures
        b == exists|i: int| 0 <= i < paths@.len() && !starts_with_slash(#[trigger] strings_view(paths@)[i]),
{
    let mut i: usize = 0;
    while i < paths.len()
        invariant
            0 <= i <= paths.len(),
            forall|j: int| 0 <= j < i ==> starts_with_slash(#[trigger] strings_view(paths@)[j]),
        decreases paths.len() - i,
    {
        let c = chars_of(paths[i].as_str());
        proof {
            assert(strings_view(paths@)[i as int] == paths@[i as int]@);
        }
        if !(c.len() > 0 && c[0] == '/') {
            return true;
        }
        i += 1;
    }
    false
}

fn any_zero_port(ports: &Vec<u16>) -> (b: bool)
    ensures
        b == ports@.contains(0u16),
{
    let mut i: usize = 0;
    while i < ports.len()
        invariant
            0 <= i <= ports.len(),
            forall|j: int| 0 <= j < i ==> #[trigger] ports@[j] != 0u16,
        decreases ports.len() - i,
    {
        if ports[i] == 0 {
            assert(ports@[i as int] == 0u16);
            return true;
        }
        i += 1;
    }
    false
}

fn any_invalid_authority(authorities: &Vec<String>) -> (b: bool)
    ensures
        b == exists|i: int| 0 <= i < authorities@.len() && !spec_is_valid_connect_authority(#[trigger] authorities@[i]@),
{
    let mut i: usize = 0;
    while i < authorities.len()
        invariant
            0 <= i <= authorities.len(),
            forall|j: int| 0 <= j < i ==> spec_is_valid_connect_authority(#[trigger] authorities@[j]@),
        decreases authorities.len() - i,
    {
        if !is_valid_connect_authority(authorities[i].as_str()) {
            return true;
        }
        i += 1;
    }
    false
}

fn check_admission_limits(r: &Resilience, t: &RuntimeTransportPolicy) -> (res: Result<(), RuntimeConfigError>)
    ensures
        err_of(res) == admission_limits_check(*r, *t),
{
    let aa = &r.adaptive_admission;
    let rq = &r.route_queue;
    if aa.min_limit == 0 {
        return Err(invalid_str("resilience.adaptive_admission.min_limit must be greater than 0"));
    }
    if let Some(max_limit) = aa.max_limit {
        if max_limit == 0 {
            return Err(invalid_str("resilience.adaptive_admission.max_limit must be greater than 0"));
        }
        if max_limit < aa.min_limit {
            return Err(config_invalid(msg_num2("resilience.adaptive_admission.max_limit (", max_limit as u64, ") must be >= min_limit (", aa.min_limit as u64, ")")));
        }
        if max_limit > t.global_inflight_limit {
            return Err(config_invalid(msg_num2("resilience.adaptive_admission.max_limit (", max_limit as u64, ") must be <= performance.global_inflight_limit (", t.global_inflight_limit as u64, ")")));
        }
    }
    if let Err(e) = require_nonzero_usize("resilience.adaptive_admission.decrease_step", aa.decrease_step) {
        return Err(e);
    }
    if let Err(e) = require_nonzero_usize("resilience.adaptive_admission.increase_step", aa.increase_step) {
        return Err(e);
    }
    if let Err(e) = require_nonzero_usize("resilience.route_queue.default_cap", rq.default_cap) {
        return Err(e);
    }
    if let Err(e) = require_nonzero_usize("resilience.route_queue.global_cap", rq.global_cap) {
        return Err(e);
    }
    if rq.shed_retry_after_seconds == 0 {
        return Err(invalid_str("resilience.route_queue.shed_retry_after_seconds must be greater than 0"));
    }
    if any_zero_cap(&rq.caps) {
        return Err(invalid_str("resilience.route_queue.caps values must be greater than 0"));
    }
    Ok(())
}

fn normalize_protocol(pp: &ProtocolPolicy) -> (res: Result<ProtocolPolicy, RuntimeConfigError>)
    ensures
        err_of(res) == protocol_check(*pp),
        res matches Ok(n) ==> protocol_normalized(n, *pp),
{
    let early_data_safe_methods = normalize_string_vec(pp.early_data_safe_methods.as_slice());
    proof {
        assert(strings_view(early_data_safe_methods@).len() == early_data_safe_methods@.len());
    }
    if early_data_safe_methods.len() != pp.early_data_safe_methods.len() {
        return Err(invalid_str("resilience.protocol.early_data_safe_methods must not contain empty values"));
    }
    let allowed_methods = normalize_string_vec(pp.allowed_methods.as_slice());
    proof {
        assert(strings_view(allowed_methods@).len() == allowed_methods@.len());
    }
    if allowed_methods.len() != pp.allowed_methods.len() {
        return Err(invalid_str("resilience.protocol.allowed_methods must not contain empty values"));
    }
    if any_invalid_token(&allowed_methods) {
        return Err(invalid_str("resilience.protocol.allowed_methods must contain valid HTTP method tokens"));
    }
    let denied_path_prefixes = normalize_string_vec(pp.denied_path_prefixes.as_slice());
    proof {
        assert(strings_view(denied_path_prefixes@).len() == denied_path_prefixes@.len());
    }
    if denied_path_prefixes.len() != pp.denied_path_prefixes.len() || any_not_slash_prefixed(&denied_path_prefixes) {
        return Err(invalid_str("resilience.protocol.denied_path_prefixes must contain '/'-prefixed paths"));
    }
    if let Err(e) = require_nonzero_usize("resilience.protocol.max_headers_count", pp.max_headers_count) {
        return Err(e);
    }
    if let Err(e) = require_nonzero_usize("resilience.protocol.max_headers_bytes", pp.max_headers_bytes) {
        return Err(e);
    }
    if !pp.allow_connect && (pp.connect_allowed_ports.len() > 0 || pp.connect_allowed_authorities.len() > 0) {
        return Err(invalid_str("resilience.protocol.connect_allowed_ports/connect_allowed_authorities require allow_connect=true"));
    }
    if any_zero_port(&pp.connect_allowed_ports) {
        return Err(invalid_str("resilience.protocol.connect_allowed_ports must contain ports in range 1-65535"));
    }
    if any_invalid_authority(&pp.connect_allowed_authorities) {
        return Err(invalid_str("resilience.protocol.connect_allowed_authorities must contain authority-form host:port targets"));
    }
    if pp.allow_0rtt && early_data_safe_methods.len() == 0 {
        return Err(invalid_str("resilience.protocol.early_data_safe_methods must be non-empty when allow_0rtt=true"));
    }
    let base = pp.duplicate();
    Ok(ProtocolPolicy {
        early_data_safe_methods,
        allowed_methods,
        denied_path_prefixes,
        max_headers_count: base.max_headers_count,
        max_headers_bytes: base.max_headers_bytes,
        allow_connect: base.allow_connect,
        connect_allowed_ports: base.connect_allowed_ports,
        connect_allowed_authorities: base.connect_allowed_authorities,
        allow_0rtt: base.allow_0rtt,
    })
}

fn check_resilience_tail(r: &Resilience) -> (res: Result<(), RuntimeConfigError>)
    ensures
        err_of(res) == resilience_tail_check(*r),
{
    let cb = &r.circuit_breaker;
    let rb = &r.retry_budget;
    let bo = &r.brownout;
    let wd = &r.watchdog;
    if cb.failure_threshold == 0 {
        return Err(invalid_str("resilience.circuit_breaker.failure_threshold must be greater than 0"));
    }
    if cb.open_ms == 0 {
        return Err(invalid_str("resilience.circuit_breaker.open_ms must be greater than 0"));
    }
    if cb.half_open_max_probes == 0 {
        return Err(invalid_str("resilience.circuit_breaker.half_open_max_probes must be greater than 0"));
    }
    if r.hedging.enabled && r.hedging.delay_ms == 0 {
        return Err(invalid_str("resilience.hedging: delay_ms must be > 0 when hedging is enabled"));
    }
    if rb.ratio_percent > 100 {
        return Err(invalid_str("resilience.retry_budget.ratio_percent must be <= 100"));
    }
    if any_ratio_over_100(&rb.per_route_ratio_percent) {
        return Err(invalid_str("resilience.retry_budget.per_route_ratio_percent values must be <= 100"));
    }
    if bo.trigger_inflight_percent > 100 || bo.recover_inflight_percent > 100 {
        return Err(invalid_str("resilience.brownout inflight percentages must be <= 100"));
    }
    if bo.recover_inflight_percent >= bo.trigger_inflight_percent {
        return Err(invalid_str("resilience.brownout.recover_inflight_percent must be < trigger_inflight_percent"));
    }
    if let Err(e) = require_nonzero_u64("resilience.watchdog.check_interval_ms", wd.check_interval_ms) {
        return Err(e);
    }
    if let Err(e) = require_nonzero_u64("resilience.watchdog.poll_stall_timeout_ms", wd.poll_stall_timeout_ms) {
        return Err(e);
    }
    if wd.timeout_error_rate_percent > 100 {
        return Err(invalid_str("resilience.watchdog.timeout_error_rate_percent must be <= 100"));
    }
    if let Err(e) = require_nonzero_u64("resilience.watchdog.min_requests_per_window", wd.min_requests_per_window) {
        return Err(e);
    }
    if wd.overload_inflight_percent > 100 {
        return Err(invalid_str("resilience.watchdog.overload_inflight_percent must be <= 100"));
    }
    if wd.unhealthy_consecutive_windows == 0 {
        return Err(invalid_str("resilience.watchdog.unhealthy_consecutive_windows must be greater than 0"));
    }
    if let Err(e) = require_nonzero_u64("resilience.watchdog.drain_grace_ms", wd.drain_grace_ms) {
        return Err(e);
    }
    if let Err(e) = require_nonzero_u64("resilience.watchdog.restart_cooldown_ms", wd.restart_cooldown_ms) {
        return Err(e);
    }
    if wd.restart_command.len() > 0 {
        let c = chars_of(wd.restart_command[0].as_str());
        let t = trimmed(c.as_slice());
        if t.len() == 0 {
            return Err(invalid_str("resilience.watchdog.restart_command[0] must be a non-empty executable path"));
        }
    }
    if wd.restart_hook.is_some() {
        return Err(unsupported_policy("resilience.watchdog.restart_hook is deprecated and unsupported; use restart_command instead".to_owned()));
    }
    Ok(())
}

impl RuntimeAdmissionPolicy {
    pub fn normalize(resilience: &Resilience, transport: &RuntimeTransportPolicy) -> (r: Result<Self, RuntimeConfigError>)
        requires
            resilience.wf(),
        ensures
            err_of(r) == admission_check(*resilience, *transport),
            r matches Ok(p) ==> {
                &&& p.adaptive_admission == resilience.adaptive_admission
                &&& p.route_queue.same_as(&resilience.route_queue)
                &&& p.circuit_breaker == resilience.circuit_breaker
                &&& p.hedging == resilience.hedging
                &&& p.retry_budget.same_as(&resilience.retry_budget)
                &&& p.brownout == resilience.brownout
                &&& p.watchdog.same_as(&resilience.watchdog)
                &&& protocol_normalized(p.protocol.0, resilience.protocol)
            },
    {
        if let Err(e) = check_admission_limits(resilience, transport) {
            return Err(e);
        }
        let protocol = match normalize_protocol(&resilience.protocol) {
            Ok(p) => p,
            Err(e) => {
                return Err(e);
            },
        };
        if let Err(e) = check_resilience_tail(resilience) {
            return Err(e);
        }
        Ok(RuntimeAdmissionPolicy {
            adaptive_admission: resilience.adaptive_admission,
            route_queue: resilience.route_queue.duplicate(),
            circuit_breaker: resilience.circuit_breaker,
            hedging: resilience.hedging,
            retry_budget: resilience.retry_budget.duplicate(),
            brownout: resilience.brownout,
            watchdog: resilience.watchdog.duplicate(),
            protocol: RuntimeProtocolPolicy(protocol),
        })
    }
}

/// The runtime policies built from a whole configuration.
#[derive(Debug, Clone)]
pub struct RuntimePolicySet {
    pub timeouts: RuntimeTimeoutPolicy,
    pub admission: RuntimeAdmissionPolicy,
    pub rate_limits: RuntimeRateLimitPolicy,
    pub transport: RuntimeTransportPolicy,
}

/// Timeouts are checked first, then transport, then scoped rate limits,
/// then admission (against the normalized transport limits).
pub open spec fn policy_set_check(c: Config) -> Option<ConfigErrorView> {
    or_else(timeout_check(c.performance),
    or_else(transport_check(c.performance),
    or_else(rate_limit_check(c.resilience.scoped_rate_limits@),
    admission_check(c.resilience, transport_policy_of(c.performance)))))
}

impl RuntimePolicySet {
    pub fn from_config(config: &Config) -> (r: Result<Self, RuntimeConfigError>)
        requires
            config.resilience.wf(),
        ensures
            err_of(r) == policy_set_check(*config),
            r matches Ok(s) ==> {
                &&& s.timeouts == timeout_policy_of(config.performance)
                &&& s.transport == transport_policy_of(config.performance)
                &&& s.rate_limits.scoped_limits@.len() == config.resilience.scoped_rate_limits@.len()
                &&& forall|i: int| 0 <= i < s.rate_limits.scoped_limits@.len() ==> scoped_policy_matches(
                    #[trigger] s.rate_limits.scoped_limits@[i],
                    config.resilience.scoped_rate_limits@[i],
                )
                &&& s.admission.adaptive_admission == config.resilience.adaptive_admission
                &&& s.admission.route_queue.same_as(&config.resilience.route_queue)
                &&& s.admission.circuit_breaker == config.resilience.circuit_breaker
                &&& s.admission.hedging == config.resilience.hedging
                &&& s.admission.retry_budget.same_as(&config.resilience.retry_budget)
                &&& s.admission.brownout == config.resilience.brownout
                &&& s.admission.watchdog.same_as(&config.resilience.watchdog)
                &&& protocol_normalized(s.admission.protocol.0, config.resilience.protocol)
            },
    {
        let timeouts = match RuntimeTimeoutPolicy::normalize(&config.performance) {
            Ok(t) => t,
            Err(e) => {
                return Err(e);
            },
        };
        let transport = match RuntimeTransportPolicy::normalize(&config.performance) {
            Ok(t) => t,
            Err(e) => {
                return Err(e);
            },
        };
        let rate_limits = match RuntimeRateLimitPolicy::normalize(&config.resilience) {
            Ok(p) => p,
            Err(e) => {
                return Err(e);
            },
        };
        let admission = match RuntimeAdmissionPolicy::normalize(&config.resilience, &transport) {
            Ok(p) => p,
            Err(e) => {
                return Err(e);
            },
        };
        Ok(RuntimePolicySet { timeouts, admission, rate_limits, transport })
    }
}

impl RuntimeScopedRateLimitPolicy {
    /// The same rule.
    pub open spec fn same_as(&self, o: &Self) -> bool {
        &&& self.name == o.name
        &&& self.scope == o.scope
        &&& self.requests_per_sec == o.requests_per_sec
        &&& self.burst == o.burst
        &&& self.key == o.key
        &&& self.route_allowlist@ == o.route_allowlist@
        &&& self.idle_ttl == o.idle_ttl
    }

    pub fn duplicate(&self) -> (r: Self)
        ensures
            r.same_as(self),
    {
        RuntimeScopedRateLimitPolicy {
            name: self.name.clone(),
            scope: self.scope,
            requests_per_sec: self.requests_per_sec,
            burst: self.burst,
            key: copy_opt_string(&self.key),
            route_allowlist: copy_strings(&self.route_allowlist),
            idle_ttl: self.idle_ttl,
        }
    }
}

impl RuntimeRateLimitPolicy {
    /// The same rules, in the same order.
    pub open spec fn same_as(&self, o: &Self) -> bool {
        &&& self.scoped_limits@.len() == o.scoped_limits@.len()
        &&& forall|i: int|
            0 <= i < self.scoped_limits@.len() ==> (#[trigger] self.scoped_limits@[i]).same_as(
                &o.scoped_limits@[i],
            )
    }

    pub fn duplicate(&self) -> (r: Self)
        ensures
            r.same_as(self),
    {
        let mut v: Vec<RuntimeScopedRateLimitPolicy> = Vec::new();
        let mut i: usize = 0;
        while i < self.scoped_limits.len()
            invariant
                0 <= i <= self.scoped_limits.len(),
                v@.len() == i,
                forall|j: int| 0 <= j < i ==> (#[trigger] v@[j]).same_as(&self.scoped_limits@[j]),
            decreases self.scoped_limits.len() - i,
        {
            v.push(self.scoped_limits[i].duplicate());
            i += 1;
        }
        RuntimeRateLimitPolicy { scoped_limits: v }
    }
}

impl RuntimeAdmissionPolicy {
    /// The same admission, resilience and protocol settings.
    pub open spec fn same_as(&self, o: &Self) -> bool {
        &&& self.adaptive_admission == o.adaptive_admission
        &&& self.route_queue.same_as(&o.route_queue)
        &&& self.circuit_breaker == o.circuit_breaker
        &&& self.hedging == o.hedging
        &&& self.retry_budget.same_as(&o.retry_budget)
        &&& self.brownout == o.brownout
        &&& self.watchdog.same_as(&o.watchdog)
        &&& self.protocol.0.same_as(&o.protocol.0)
    }

    pub fn duplicate(&self) -> (r: Self)
        ensures
            r.same_as(self),
    {
        RuntimeAdmissionPolicy {
            adaptive_admission: self.adaptive_admission,
            route_queue: self.route_queue.duplicate(),
            circuit_breaker: self.circuit_breaker,
            hedging: self.hedging,
            retry_budget: self.retry_budget.duplicate(),
            brownout: self.brownout,
            watchdog: self.watchdog.duplicate(),
            protocol: RuntimeProtocolPolicy(self.protocol.0.duplicate()),
        }
    }
}

/// An upstream's TLS settings as the transport uses them, over the type
/// `T` of those settings.
#[derive(Debug, Clone)]
pub struct RuntimeUpstreamTransportPolicy<T> {
    pub effective_tls: T,
}

impl<T: Clone> RuntimeUpstreamTransportPolicy<T> {
    pub fn from_effective_tls(effective_tls: &T) -> (r: Self)
        ensures
            cloned(*effective_tls, r.effective_tls),
    {
        RuntimeUpstreamTransportPolicy { effective_tls: effective_tls.clone() }
    }
}

/// The policies configured on one upstream, over the types of its
/// authorization (`A`), host (`Hs`) and forwarded-header (`F`) policies.
#[derive(Debug, Clone)]
pub struct RuntimeUpstreamPolicy<A, Hs, F> {
    pub upstream_auth: A,
    pub host: Hs,
    pub forwarded_headers: F,
    pub protocol: RuntimeProtocolPolicy,
}

/// One upstream of the runtime configuration: how it balances, the TLS
/// settings in effect for it (`T`), and its policies.
#[derive(Debug, Clone)]
pub struct RuntimeUpstream<A, Hs, F, T> {
    pub load_balancing: LoadBalancing,
    pub effective_tls: T,
    pub policy: RuntimeUpstreamPolicy<A, Hs, F>,
}

/// Every policy that applies to requests of one upstream: the shared
/// timeouts, rate limits and admission of the runtime, with the upstream's
/// own authorization, balancing, transport, host, forwarded-header and
/// protocol policies.
#[derive(Debug, Clone)]
pub struct RuntimeUpstreamPolicySet<A, Hs, F, T> {
    pub timeouts: RuntimeTimeoutPolicy,
    pub auth: A,
    pub rate_limits: RuntimeRateLimitPolicy,
    pub load_balancing: RuntimeLoadBalancingPolicy,
    pub admission: RuntimeAdmissionPolicy,
    pub transport: RuntimeUpstreamTransportPolicy<T>,
    pub host: Hs,
    pub forwarded_headers: F,
    pub protocol: RuntimeProtocolPolicy,
}

impl<A: Clone, Hs: Clone, F: Clone, T: Clone> RuntimeUpstreamPolicySet<A, Hs, F, T> {
    /// The policy set of `upstream` within `base`: it fails exactly when the
    /// upstream's load balancing does not normalize, with that error.
    pub fn normalize(upstream: &RuntimeUpstream<A, Hs, F, T>, base: &RuntimePolicySet) -> (r: Result<
        Self,
        RuntimeConfigError,
    >)
        ensures
            err_of(r) == load_balancing_check(upstream.load_balancing),
            r matches Ok(s) ==> {
                &&& s.timeouts == base.timeouts
                &&& cloned(upstream.policy.upstream_auth, s.auth)
                &&& s.rate_limits.same_as(&base.rate_limits)
                &&& s.load_balancing.strategy == spec_strategy_of(upstream.load_balancing.lb_type@)
                &&& opt_string_view(s.load_balancing.key) == spec_normalize_optional(
                    opt_string_view(upstream.load_balancing.key),
                )
                &&& s.admission.same_as(&base.admission)
                &&& cloned(upstream.effective_tls, s.transport.effective_tls)
                &&& cloned(upstream.policy.host, s.host)
                &&& cloned(upstream.policy.forwarded_headers, s.forwarded_headers)
                &&& s.protocol.0.same_as(&upstream.policy.protocol.0)
            },
    {
        let load_balancing = match RuntimeLoadBalancingPolicy::normalize(&upstream.load_balancing) {
            Ok(p) => p,
            Err(e) => {
                return Err(e);
            },
        };
        Ok(
            RuntimeUpstreamPolicySet {
                timeouts: base.timeouts,
                auth: upstream.policy.upstream_auth.clone(),
                rate_limits: base.rate_limits.duplicate(),
                load_balancing,
                admission: base.admission.duplicate(),
                transport: RuntimeUpstreamTransportPolicy::from_effective_tls(&upstream.effective_tls),
                host: upstream.policy.host.clone(),
                forwarded_headers: upstream.policy.forwarded_headers.clone(),
                protocol: RuntimeProtocolPolicy(upstream.policy.protocol.0.duplicate()),
            },
        )
    }
}

/// The runtime policies a listener is configured with.
#[derive(Debug, Clone)]
pub struct ListenerRuntimePolicies {
    pub timeouts: RuntimeTimeoutPolicy,
    pub transport: RuntimeTransportPolicy,
}

/// Where a listener listens, with its TLS settings (of type `L`).
#[derive(Debug, Clone)]
pub struct ListenerBinding<L> {
    pub tls: L,
}

/// One listener of the runtime configuration, as its policy set reads it.
#[derive(Debug, Clone)]
pub struct ListenerRuntimeConfig<L> {
    pub listen: ListenerBinding<L>,
    pub policies: ListenerRuntimePolicies,
}

/// The policies that apply to one listener: its timeouts, transport limits
/// and TLS settings.
#[derive(Debug, Clone)]
pub struct RuntimeListenerPolicySet<L> {
    pub timeouts: RuntimeTimeoutPolicy,
    pub transport: RuntimeTransportPolicy,
    pub tls: L,
}

impl<L: Clone> RuntimeListenerPolicySet<L> {
    pub fn from_listener_runtime_config(config: &ListenerRuntimeConfig<L>) -> (r: Self)
        ensures
            r.timeouts == config.policies.timeouts,
            r.transport == config.policies.transport,
            cloned(config.listen.tls, r.tls),
    {
        RuntimeListenerPolicySet {
            timeouts: config.policies.timeouts,
            transport: config.policies.transport,
            tls: config.listen.tls.clone(),
        }
    }
}

} // verus!
