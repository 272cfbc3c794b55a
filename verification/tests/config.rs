use spooky::config::model::{
    AdaptiveAdmission, Brownout, CircuitBreaker, Config, Hedging, LoadBalancing, Performance,
    ProtocolPolicy, Resilience, RetryBudget, RouteQueue, ScopedRateLimit, ScopedRateLimitScope,
    Watchdog,
};
use spooky::config::policies::{
    RuntimeAdmissionPolicy, RuntimeLoadBalancingPolicy, RuntimeLoadBalancingStrategy,
    RuntimePolicySet, RuntimeRateLimitPolicy, RuntimeScopedRateLimitPolicy, RuntimeTimeoutPolicy,
    RuntimeTransportPolicy, RuntimeProtocolPolicy, RuntimeUpstream, RuntimeUpstreamPolicy,
    RuntimeUpstreamPolicySet, RuntimeUpstreamTransportPolicy, ListenerBinding,
    ListenerRuntimeConfig, ListenerRuntimePolicies, RuntimeListenerPolicySet,
};
use spooky::config::validate::{
    is_valid_connect_authority, is_valid_http_token, is_valid_request_key_spec,
    normalize_optional_string, normalize_string_vec,
};
use spooky::time::TimeSpan;

fn strings(values: &[&str]) -> Vec<String> {
    values.iter().map(|v| v.to_string()).collect()
}

fn sample_performance() -> Performance {
    Performance {
        inflight_acquire_wait_ms: 50,
        backend_timeout_ms: 2_000,
        backend_connect_timeout_ms: 500,
        backend_body_idle_timeout_ms: 3_000,
        backend_body_total_timeout_ms: 4_000,
        backend_total_request_timeout_ms: 5_000,
        shutdown_drain_timeout_ms: 10_000,
        client_body_idle_timeout_ms: 30_000,
        h2_pool_idle_timeout_ms: 90_000,
        backend_dns_refresh_interval_ms: 30_000,
        quic_max_idle_timeout_ms: 60_000,
        worker_threads: 1,
        control_plane_threads: 1,
        packet_shards_per_worker: 1,
        packet_shard_queue_capacity: 1_024,
        packet_shard_queue_max_bytes: 1 << 20,
        reuseport: true,
        pin_workers: false,
        global_inflight_limit: 1_000,
        per_upstream_inflight_limit: 500,
        per_backend_inflight_limit: 100,
        udp_recv_buffer_bytes: 1 << 20,
        udp_send_buffer_bytes: 1 << 20,
        h2_pool_max_idle_per_backend: 8,
        backend_dns_refresh_enabled: true,
        new_connections_per_sec: 100,
        new_connections_burst: 200,
        max_active_connections: 10_000,
        quic_initial_max_data: 10_000_000,
        quic_initial_max_stream_data: 1_000_000,
        quic_initial_max_streams_bidi: 100,
        quic_initial_max_streams_uni: 100,
        max_response_body_bytes: 1 << 20,
        max_request_body_bytes: 64 * 1024,
        request_buffer_global_cap_bytes: 1 << 20,
        unknown_length_response_prebuffer_bytes: 64 * 1024,
    }
}

fn sample_resilience() -> Resilience {
    Resilience {
        adaptive_admission: AdaptiveAdmission {
            min_limit: 10,
            max_limit: Some(500),
            decrease_step: 5,
            increase_step: 1,
        },
        route_queue: RouteQueue {
            default_cap: 64,
            global_cap: 1_024,
            shed_retry_after_seconds: 1,
            caps: vec![("api".to_string(), 32)],
        },
        protocol: ProtocolPolicy {
            early_data_safe_methods: strings(&["GET", "HEAD"]),
            allowed_methods: strings(&["GET", "POST"]),
            denied_path_prefixes: Vec::new(),
            max_headers_count: 100,
            max_headers_bytes: 16 * 1024,
            allow_connect: false,
            connect_allowed_ports: Vec::new(),
            connect_allowed_authorities: Vec::new(),
            allow_0rtt: false,
        },
        circuit_breaker: CircuitBreaker {
            failure_threshold: 5,
            open_ms: 1_000,
            half_open_max_probes: 2,
        },
        hedging: Hedging {
            enabled: false,
            delay_ms: 0,
        },
        retry_budget: RetryBudget {
            ratio_percent: 20,
            per_route_ratio_percent: vec![("api".to_string(), 10)],
        },
        brownout: Brownout {
            trigger_inflight_percent: 90,
            recover_inflight_percent: 70,
        },
        watchdog: Watchdog {
            check_interval_ms: 1_000,
            poll_stall_timeout_ms: 2_000,
            timeout_error_rate_percent: 50,
            min_requests_per_window: 10,
            overload_inflight_percent: 95,
            unhealthy_consecutive_windows: 3,
            drain_grace_ms: 5_000,
            restart_cooldown_ms: 60_000,
            restart_command: Vec::new(),
            restart_hook: None,
        },
        scoped_rate_limits: Vec::new(),
    }
}

fn sample_config() -> Config {
    Config {
        performance: sample_performance(),
        resilience: sample_resilience(),
    }
}

fn tenant_rule(name: &str) -> ScopedRateLimit {
    ScopedRateLimit {
        name: name.to_string(),
        scope: ScopedRateLimitScope::Tenant,
        requests_per_sec: 12,
        burst: 34,
        key: Some("header:x-tenant-id".to_string()),
        route_allowlist: strings(&[" api "]),
        idle_ttl_secs: 9,
    }
}

#[test]
fn runtime_policy_set_normalizes_timeout_and_transport_knobs() {
    let mut config = sample_config();
    config.performance.backend_timeout_ms = 2_500;
    config.performance.backend_connect_timeout_ms = 400;
    config.performance.backend_body_idle_timeout_ms = 3_500;
    config.performance.backend_body_total_timeout_ms = 4_500;
    config.performance.backend_total_request_timeout_ms = 5_500;
    config.performance.h2_pool_idle_timeout_ms = 91_000;
    config.performance.max_active_connections = 1234;
    config.performance.max_request_body_bytes = 8_000;
    config.performance.request_buffer_global_cap_bytes = 9_999;
    config.resilience.route_queue.shed_retry_after_seconds = 17;

    let policies = RuntimePolicySet::from_config(&config).expect("runtime config");

    assert_eq!(policies.timeouts.backend_request, TimeSpan::from_millis(2_500));
    assert_eq!(policies.timeouts.backend_connect, TimeSpan::from_millis(400));
    assert_eq!(policies.timeouts.h2_pool_idle, TimeSpan::from_millis(91_000));
    assert_eq!(policies.transport.max_active_connections, 1234);
    assert_eq!(policies.transport.request_buffer_global_cap_bytes, 9_999);
    assert_eq!(policies.admission.route_queue.shed_retry_after_seconds, 17);
}

#[test]
fn runtime_config_rejects_invalid_timeout_ordering() {
    let mut config = sample_config();
    config.performance.backend_connect_timeout_ms = 2_000;
    config.performance.backend_timeout_ms = 1_000;

    let err = RuntimePolicySet::from_config(&config)
        .err()
        .expect("timeout ordering must be validated");
    assert_eq!(err.category(), "config_invalid");
    assert!(err
        .message()
        .contains("backend_connect_timeout_ms must be <= backend_timeout_ms"));
}

#[test]
fn policy_set_keeps_defaults_in_parity_with_configuration() {
    let config = sample_config();
    let policies = RuntimePolicySet::from_config(&config).expect("runtime config");
    assert_eq!(
        policies.timeouts.backend_request,
        TimeSpan::from_millis(config.performance.backend_timeout_ms)
    );
    assert_eq!(
        policies.timeouts.quic_max_idle,
        TimeSpan::from_millis(config.performance.quic_max_idle_timeout_ms)
    );
    assert_eq!(policies.timeouts.backend_request.as_millis(), 2_000);
    assert_eq!(policies.transport.global_inflight_limit, 1_000);
    assert_eq!(policies.transport.quic_initial_max_data, 10_000_000);
    assert_eq!(policies.admission.watchdog.check_interval_ms, 1_000);
    assert!(policies.rate_limits.scoped_limits.is_empty());
}

#[test]
fn timeout_policy_reports_first_zero_timeout() {
    let mut performance = sample_performance();
    performance.backend_body_idle_timeout_ms = 0;
    performance.quic_max_idle_timeout_ms = 0;
    let err = RuntimeTimeoutPolicy::normalize(&performance).err().expect("zero timeout");
    assert_eq!(
        err.message(),
        "performance.backend_body_idle_timeout_ms must be greater than 0"
    );
}

#[test]
fn timeout_policy_checks_body_and_total_ordering() {
    let mut performance = sample_performance();
    performance.backend_body_total_timeout_ms = 6_000;
    let err = RuntimeTimeoutPolicy::normalize(&performance).err().expect("ordering");
    assert_eq!(
        err.message(),
        "performance.backend_body_total_timeout_ms must be <= backend_total_request_timeout_ms"
    );
}

#[test]
fn transport_policy_reports_thread_limit_with_value() {
    let mut performance = sample_performance();
    performance.worker_threads = 2_000;
    let err = RuntimeTransportPolicy::normalize(&performance).err().expect("too many threads");
    assert_eq!(err.category(), "config_invalid");
    assert_eq!(
        err.message(),
        "performance.worker_threads=2000 exceeds the maximum of 1024"
    );
}

#[test]
fn transport_policy_requires_reuseport_for_multiple_workers() {
    let mut performance = sample_performance();
    performance.worker_threads = 4;
    performance.reuseport = false;
    let err = RuntimeTransportPolicy::normalize(&performance).err().expect("reuseport");
    assert_eq!(
        err.message(),
        "performance.reuseport must be true when performance.worker_threads > 1"
    );
}

#[test]
fn transport_policy_reports_quic_window_ordering_with_values() {
    let mut performance = sample_performance();
    performance.quic_initial_max_stream_data = 20_000_000;
    let err = RuntimeTransportPolicy::normalize(&performance).err().expect("quic windows");
    assert_eq!(
        err.message(),
        "performance.quic_initial_max_stream_data (20000000) must be <= quic_initial_max_data (10000000)"
    );

    let mut performance = sample_performance();
    performance.request_buffer_global_cap_bytes = 1_000;
    let err = RuntimeTransportPolicy::normalize(&performance).err().expect("buffer cap");
    assert_eq!(
        err.message(),
        "performance.request_buffer_global_cap_bytes (1000) must be >= max_request_body_bytes (65536)"
    );
}

#[test]
fn transport_policy_copies_every_knob() {
    let performance = sample_performance();
    let transport = RuntimeTransportPolicy::normalize(&performance).expect("transport");
    assert_eq!(transport.worker_threads, 1);
    assert_eq!(transport.per_backend_inflight_limit, 100);
    assert_eq!(transport.new_connections_burst, 200);
    assert_eq!(transport.unknown_length_response_prebuffer_bytes, 64 * 1024);
}

#[test]
fn runtime_config_normalizes_jwt_and_scoped_rate_limit_shapes() {
    let mut config = sample_config();
    config.resilience.scoped_rate_limits = vec![ScopedRateLimit {
        name: " tenant-default ".to_string(),
        scope: ScopedRateLimitScope::Tenant,
        requests_per_sec: 12,
        burst: 34,
        key: Some("header:x-tenant-id".to_string()),
        route_allowlist: vec![" api ".to_string()],
        idle_ttl_secs: 9,
    }];

    let policies = RuntimePolicySet::from_config(&config).expect("runtime config");
    let scoped_limit = policies.rate_limits.scoped_limits.first().expect("scoped rate limit");
    assert_eq!(scoped_limit.name, " tenant-default ");
    assert_eq!(scoped_limit.route_allowlist, vec!["api".to_string()]);
    assert_eq!(scoped_limit.key.as_deref(), Some("header:x-tenant-id"));
    assert_eq!(scoped_limit.idle_ttl, TimeSpan::from_secs(9));
    assert_eq!(scoped_limit.requests_per_sec, 12);
    assert_eq!(scoped_limit.burst, 34);
}

#[test]
fn scoped_rate_limit_rejects_blank_name_and_missing_tenant_key() {
    let mut rule = tenant_rule("   ");
    let err = RuntimeScopedRateLimitPolicy::normalize(&rule).err().expect("blank name");
    assert_eq!(err.message(), "resilience.scoped_rate_limits[].name must be non-empty");

    rule = tenant_rule(" tenant ");
    rule.key = Some("  ".to_string());
    let err = RuntimeScopedRateLimitPolicy::normalize(&rule).err().expect("missing key");
    assert_eq!(
        err.message(),
        "resilience.scoped_rate_limits['tenant'].key is required for scope=tenant"
    );
}

#[test]
fn scoped_rate_limit_rejects_key_for_route_scope_and_unknown_key_spec() {
    let mut rule = tenant_rule("per-route");
    rule.scope = ScopedRateLimitScope::Route;
    let err = RuntimeScopedRateLimitPolicy::normalize(&rule).err().expect("route key");
    assert_eq!(
        err.message(),
        "resilience.scoped_rate_limits['per-route'].key is invalid for scope=route"
    );

    let mut rule = tenant_rule("client");
    rule.scope = ScopedRateLimitScope::Client;
    rule.key = Some("body:foo".to_string());
    let err = RuntimeScopedRateLimitPolicy::normalize(&rule).err().expect("bad key");
    assert_eq!(
        err.message(),
        "resilience.scoped_rate_limits['client'].key must be a supported request key spec"
    );

    let mut rule = tenant_rule("zero");
    rule.burst = 0;
    let err = RuntimeScopedRateLimitPolicy::normalize(&rule).err().expect("zero burst");
    assert_eq!(
        err.message(),
        "resilience.scoped_rate_limits['zero'].burst must be greater than 0"
    );
}

#[test]
fn rate_limits_reject_duplicate_rule_names() {
    let mut resilience = sample_resilience();
    resilience.scoped_rate_limits = vec![tenant_rule("a"), tenant_rule("b"), tenant_rule("a")];
    let err = RuntimeRateLimitPolicy::normalize(&resilience).err().expect("duplicate");
    assert_eq!(
        err.message(),
        "resilience.scoped_rate_limits contains duplicate rule name 'a'"
    );

    resilience.scoped_rate_limits = vec![tenant_rule("a"), tenant_rule("b")];
    let policy = RuntimeRateLimitPolicy::normalize(&resilience).expect("distinct names");
    assert_eq!(policy.scoped_limits.len(), 2);
    assert_eq!(policy.scoped_limits[1].name, "b");
}

#[test]
fn admission_rejects_max_limit_above_global_inflight() {
    let mut config = sample_config();
    config.resilience.adaptive_admission.max_limit = Some(5_000);
    let err = RuntimePolicySet::from_config(&config).err().expect("max limit");
    assert_eq!(
        err.message(),
        "resilience.adaptive_admission.max_limit (5000) must be <= performance.global_inflight_limit (1000)"
    );
}

#[test]
fn admission_refuses_restart_hook_as_unsupported() {
    let mut resilience = sample_resilience();
    resilience.watchdog.restart_hook = Some("/bin/restart".to_string());
    let transport = RuntimeTransportPolicy::normalize(&sample_performance()).expect("transport");
    let err = RuntimeAdmissionPolicy::normalize(&resilience, &transport)
        .err()
        .expect("restart hook");
    assert_eq!(err.category(), "unsupported_policy_combination");
    assert_eq!(
        err.message(),
        "resilience.watchdog.restart_hook is deprecated and unsupported; use restart_command instead"
    );
}

#[test]
fn admission_trims_protocol_lists() {
    let mut resilience = sample_resilience();
    resilience.protocol.allowed_methods = strings(&[" GET ", "POST"]);
    resilience.protocol.denied_path_prefixes = strings(&[" /admin "]);
    let transport = RuntimeTransportPolicy::normalize(&sample_performance()).expect("transport");
    let admission = RuntimeAdmissionPolicy::normalize(&resilience, &transport).expect("admission");
    assert_eq!(admission.protocol.0.allowed_methods, strings(&["GET", "POST"]));
    assert_eq!(admission.protocol.0.denied_path_prefixes, strings(&["/admin"]));
    assert_eq!(admission.retry_budget.ratio_percent, 20);
}

#[test]
fn admission_checks_protocol_rules() {
    let transport = RuntimeTransportPolicy::normalize(&sample_performance()).expect("transport");

    let mut resilience = sample_resilience();
    resilience.protocol.allowed_methods = strings(&["GET", "BAD METHOD"]);
    let err = RuntimeAdmissionPolicy::normalize(&resilience, &transport).err().expect("token");
    assert_eq!(
        err.message(),
        "resilience.protocol.allowed_methods must contain valid HTTP method tokens"
    );

    let mut resilience = sample_resilience();
    resilience.protocol.connect_allowed_ports = vec![443];
    let err = RuntimeAdmissionPolicy::normalize(&resilience, &transport).err().expect("connect");
    assert_eq!(
        err.message(),
        "resilience.protocol.connect_allowed_ports/connect_allowed_authorities require allow_connect=true"
    );

    let mut resilience = sample_resilience();
    resilience.brownout.recover_inflight_percent = 95;
    let err = RuntimeAdmissionPolicy::normalize(&resilience, &transport).err().expect("brownout");
    assert_eq!(
        err.message(),
        "resilience.brownout.recover_inflight_percent must be < trigger_inflight_percent"
    );
}

#[test]
fn load_balancing_strategy_is_parsed_case_insensitively() {
    assert_eq!(
        RuntimeLoadBalancingStrategy::from_lb_type(" Round-Robin "),
        RuntimeLoadBalancingStrategy::RoundRobin
    );
    assert_eq!(
        RuntimeLoadBalancingStrategy::from_lb_type("Consistent-Hash"),
        RuntimeLoadBalancingStrategy::ConsistentHash
    );
    assert_eq!(
        RuntimeLoadBalancingStrategy::from_lb_type("consistent_hash"),
        RuntimeLoadBalancingStrategy::Other
    );
    assert_eq!(
        RuntimeLoadBalancingStrategy::from_lb_type("weighted"),
        RuntimeLoadBalancingStrategy::Other
    );

    let err = RuntimeLoadBalancingPolicy::normalize(&LoadBalancing {
        lb_type: "weighted".to_string(),
        key: None,
    })
    .err()
    .expect("unsupported");
    assert_eq!(err.message(), "unsupported load balancing type 'weighted'");

    let policy = RuntimeLoadBalancingPolicy::normalize(&LoadBalancing {
        lb_type: "sticky-cid".to_string(),
        key: Some("  ".to_string()),
    })
    .expect("supported");
    assert_eq!(policy.strategy, RuntimeLoadBalancingStrategy::StickyCid);
    assert_eq!(policy.key, None);
}

#[test]
fn validation_helpers_match_expected_shapes() {
    assert!(is_valid_http_token("GET"));
    assert!(!is_valid_http_token(""));
    assert!(!is_valid_http_token("GE T"));
    assert!(is_valid_connect_authority("example.com:443"));
    assert!(is_valid_connect_authority("[::1]:8443"));
    assert!(!is_valid_connect_authority("example.com:0"));
    assert!(!is_valid_connect_authority(" :443"));
    assert!(!is_valid_connect_authority("example.com"));
    assert!(is_valid_request_key_spec(" Header:X-Tenant "));
    assert!(is_valid_request_key_spec("peer_ip"));
    assert!(!is_valid_request_key_spec("header:  "));
    assert!(!is_valid_request_key_spec("body:x"));
    assert_eq!(normalize_optional_string(Some("  x ")), Some("x".to_string()));
    assert_eq!(normalize_optional_string(Some("   ")), None);
    assert_eq!(normalize_optional_string(None), None);
    assert_eq!(
        normalize_string_vec(&strings(&[" a ", "  ", "b"])),
        strings(&["a", "b"])
    );
}

#[test]
fn rate_limits_report_the_first_failing_rule_and_compare_names_untrimmed() {
    let mut resilience = sample_resilience();
    let mut zero = tenant_rule("zero");
    zero.burst = 0;
    resilience.scoped_rate_limits = vec![tenant_rule("a"), tenant_rule("a"), zero.clone()];
    assert_eq!(
        RuntimeRateLimitPolicy::normalize(&resilience).err().expect("duplicate first").message(),
        "resilience.scoped_rate_limits contains duplicate rule name 'a'"
    );
    resilience.scoped_rate_limits = vec![tenant_rule("a"), zero, tenant_rule("a")];
    assert_eq!(
        RuntimeRateLimitPolicy::normalize(&resilience).err().expect("invalid first").message(),
        "resilience.scoped_rate_limits['zero'].burst must be greater than 0"
    );
    resilience.scoped_rate_limits = vec![tenant_rule("a"), tenant_rule(" a")];
    let policy = RuntimeRateLimitPolicy::normalize(&resilience).expect("names differ untrimmed");
    for (p, rule) in policy.scoped_limits.iter().zip(resilience.scoped_rate_limits.iter()) {
        assert_eq!(*p, RuntimeScopedRateLimitPolicy::normalize(rule).unwrap());
    }
}

fn upstream(lb_type: &str) -> RuntimeUpstream<String, String, String, String> {
    RuntimeUpstream {
        load_balancing: LoadBalancing { lb_type: lb_type.to_string(), key: Some(" header:x-user ".to_string()) },
        effective_tls: "verify-peer".to_string(),
        policy: RuntimeUpstreamPolicy {
            upstream_auth: "jwt".to_string(),
            host: "api.example.com".to_string(),
            forwarded_headers: "x-forwarded-for".to_string(),
            protocol: RuntimeProtocolPolicy(sample_resilience().protocol),
        },
    }
}

#[test]
fn upstream_policy_set_combines_base_and_upstream_policies() {
    let base = RuntimePolicySet::from_config(&sample_config()).expect("base");
    let set = RuntimeUpstreamPolicySet::normalize(&upstream("consistent-hash"), &base).expect("set");
    assert_eq!(set.timeouts, base.timeouts);
    assert_eq!(set.auth, "jwt");
    assert_eq!(set.rate_limits, base.rate_limits);
    assert_eq!(set.load_balancing.strategy, RuntimeLoadBalancingStrategy::ConsistentHash);
    assert_eq!(set.load_balancing.key.as_deref(), Some("header:x-user"));
    assert_eq!(set.transport.effective_tls, "verify-peer");
    assert_eq!(set.host, "api.example.com");
    assert_eq!(set.forwarded_headers, "x-forwarded-for");
    assert_eq!(set.protocol, RuntimeProtocolPolicy(sample_resilience().protocol));
    assert_eq!(
        RuntimeUpstreamTransportPolicy::from_effective_tls(&7u8).effective_tls,
        7u8
    );

    let err = RuntimeUpstreamPolicySet::normalize(&upstream("weighted"), &base)
        .err()
        .expect("unsupported balancing");
    assert_eq!(err.message(), "unsupported load balancing type 'weighted'");
}

#[test]
fn listener_policy_set_takes_the_listener_policies_and_tls() {
    let base = RuntimePolicySet::from_config(&sample_config()).expect("base");
    let config = ListenerRuntimeConfig {
        listen: ListenerBinding { tls: "server.pem".to_string() },
        policies: ListenerRuntimePolicies { timeouts: base.timeouts, transport: base.transport },
    };
    let set = RuntimeListenerPolicySet::from_listener_runtime_config(&config);
    assert_eq!(set.timeouts, base.timeouts);
    assert_eq!(set.transport, base.transport);
    assert_eq!(set.tls, "server.pem");
}
