use spooky::config::model::Watchdog;
use spooky::errors::proxy::ProxyError;
use spooky::quic_listener::control_api::{
    added_listeners, bearer_token_from_authorization_header, control_api_bind_failure,
    control_api_listener_step, control_api_startup, ControlApiListenerStep, ControlApiStartup, bind_address, claim_connection_slot,
    connection_limits, control_api_action, control_api_is_authorized, control_api_reload_check,
    join_strings, metrics_reload_check, next_generation, preflight_rejection,
    preflight_uses_reuseport, readiness, reload_failure_response, removed_listener_rejection,
    restart_outcome, restart_request_decision, validate_startup_owned_reload_compatibility,
    ControlApiAction, ControlApiEndpoint, ControlApiMethod, ControlApiPaths, MetricsEndpoint,
    PreflightStage, ReloadBindCheck, reload_start, reload_step, ReloadNext, ReloadStage, ReloadFailure, RestartRequestDecision,
    StartupOwnedChange, StartupOwnedSettings,
};
use spooky::quic_listener::forwarding::lb_key::{
    bearer_token_from_authorization_value, default_lb_request_key, extract_cookie_value,
    extract_query_param, resolve_lb_key_from_spec, resolve_lb_request_key,
};
use spooky::quic_listener::forwarding::resolve::{
    bootstrap_route_resolution_error_response, classify_route_resolution_failure,
    classify_route_resolution_transport_reason, empty_method_or_path_error,
    invalid_server_address_error, no_healthy_servers_error, no_route_error,
    no_servers_in_upstream_error, pool_lock_poisoned_error, pool_not_found_error,
    check_locked_pool, resolve_route_target, select_backend_readonly,
    select_backend_with_write_lock, ResolvedRoute, RouteResolutionFailureKind,
    RouteResolutionRequest, SelectedBackend,
};
use spooky::lb::pool::{create_backend_state, BackendPool};
use spooky::routing::decision::{RouteDecision, RouteDecisionReason};
use spooky::quic_listener::watchdog::{
    evaluate_watchdog_window, restart_args, restart_due, restart_program, watchdog_restart_env,
    WatchdogWindowAction, WatchdogWindowSample, WatchdogWindowState,
};

fn strings(values: &[&str]) -> Vec<String> {
    values.iter().map(|v| v.to_string()).collect()
}

fn endpoint() -> ControlApiEndpoint {
    ControlApiEndpoint {
        enabled: true,
        required: false,
        address: "127.0.0.1".to_string(),
        port: 9443,
        health_path: "/health".to_string(),
        ready_path: "/ready".to_string(),
        runtime_path: "/runtime".to_string(),
        restart_path: "/restart".to_string(),
        reload_path: "/reload".to_string(),
        reload_certs_path: "/reload-certs".to_string(),
        auth_token: Some("secret".to_string()),
        max_connections: 0,
        connection_timeout_ms: 250,
    }
}

#[test]
fn bearer_authorization_scheme_is_case_insensitive() {
    assert_eq!(
        bearer_token_from_authorization_header("Bearer token-1").as_deref(),
        Some("token-1")
    );
    assert_eq!(
        bearer_token_from_authorization_header("bearer token-2").as_deref(),
        Some("token-2")
    );
    assert_eq!(
        bearer_token_from_authorization_header("BEARER token-3").as_deref(),
        Some("token-3")
    );
}

#[test]
fn bearer_authorization_rejects_malformed_headers() {
    assert_eq!(bearer_token_from_authorization_header("Basic abc"), None);
    assert_eq!(bearer_token_from_authorization_header("Bearer"), None);
    assert_eq!(bearer_token_from_authorization_header("Bearer   "), None);
}

#[test]
fn bearer_token_keeps_inner_whitespace_and_trims_edges() {
    assert_eq!(
        bearer_token_from_authorization_value("  Bearer \t tok en  ").as_deref(),
        Some("tok en")
    );
    assert_eq!(bearer_token_from_authorization_value("Bearertoken"), None);
}

#[test]
fn control_api_authorization_requires_matching_token() {
    assert!(control_api_is_authorized(Some("secret"), Some("Bearer secret")));
    assert!(!control_api_is_authorized(Some("secret"), Some("Bearer secreT")));
    assert!(!control_api_is_authorized(Some("secret"), Some("Bearer secret2")));
    assert!(!control_api_is_authorized(Some("secret"), None));
    assert!(!control_api_is_authorized(None, Some("Bearer secret")));
    assert!(!control_api_is_authorized(Some("secret"), Some("Basic secret")));
}

#[test]
fn control_api_paths_follow_endpoint() {
    let paths = ControlApiPaths::from_endpoint(&endpoint());
    assert_eq!(paths.health_path, "/health");
    assert_eq!(paths.reload_certs_path, "/reload-certs");
    assert_eq!(connection_limits(&endpoint()), (1, 250));
}

#[test]
fn control_api_routes_requests_by_method_and_path() {
    let paths = ControlApiPaths::from_endpoint(&endpoint());
    let get = ControlApiMethod::Get;
    let post = ControlApiMethod::Post;
    assert_eq!(control_api_action(get, "/health", &paths, false), ControlApiAction::Health);
    assert_eq!(control_api_action(get, "/ready", &paths, true), ControlApiAction::Ready);
    assert_eq!(control_api_action(get, "/runtime", &paths, false), ControlApiAction::Runtime);
    assert_eq!(
        control_api_action(post, "/reload-certs", &paths, false),
        ControlApiAction::ReloadCerts
    );
    assert_eq!(control_api_action(post, "/reload", &paths, false), ControlApiAction::NotFound);
    assert_eq!(
        control_api_action(post, "/reload", &paths, true),
        ControlApiAction::ReloadConfig
    );
    assert_eq!(
        control_api_action(post, "/reload-certs", &paths, true),
        ControlApiAction::ReloadConfig
    );
    assert_eq!(control_api_action(post, "/restart", &paths, true), ControlApiAction::Restart);
    assert_eq!(control_api_action(post, "/health", &paths, true), ControlApiAction::NotFound);
    assert_eq!(
        control_api_action(ControlApiMethod::Other, "/health", &paths, true),
        ControlApiAction::NotFound
    );
}

#[test]
fn readiness_and_restart_answers() {
    assert_eq!(readiness(0, 0, false), (true, 200));
    assert_eq!(readiness(1, 3, false), (true, 200));
    assert_eq!(readiness(0, 3, false), (false, 503));
    assert_eq!(readiness(3, 3, true), (false, 503));
    assert_eq!(restart_request_decision(false, true), RestartRequestDecision::Unauthorized);
    assert_eq!(restart_request_decision(true, false), RestartRequestDecision::WatchdogDisabled);
    assert_eq!(restart_request_decision(true, true), RestartRequestDecision::RequestRestart);
    assert_eq!(restart_outcome(true), (202, "admin_runtime_api"));
    assert_eq!(restart_outcome(false), (409, "restart pending or cooldown active"));
}

#[test]
fn connection_slots_are_claimed_below_the_limit() {
    assert_eq!(claim_connection_slot(0, 1), Some(1));
    assert_eq!(claim_connection_slot(1, 1), None);
    assert_eq!(claim_connection_slot(5, 3), None);
}

#[test]
fn reload_failures_map_to_statuses_and_messages() {
    assert_eq!(
        reload_failure_response(&ReloadFailure::Validation("bad".to_string())),
        (400, "Configuration validation failed: bad".to_string())
    );
    assert_eq!(
        reload_failure_response(&ReloadFailure::Normalization("x".to_string())),
        (400, "Runtime configuration normalization failed: x".to_string())
    );
    assert_eq!(
        reload_failure_response(&ReloadFailure::ReadConfig("missing".to_string())),
        (500, "missing".to_string())
    );
    assert_eq!(
        reload_failure_response(&ReloadFailure::StartupOwned(strings(&["a", "b"]))),
        (409, "a; b".to_string())
    );
    assert_eq!(
        reload_failure_response(&ReloadFailure::Incompatible("busy".to_string())).0,
        409
    );
    assert_eq!(join_strings(&Vec::new(), "; "), "");
    assert_eq!(next_generation(7), 8);
    assert_eq!(next_generation(u64::MAX), u64::MAX);
}

#[test]
fn runtime_reload_rejects_listener_removal_and_lists_additions() {
    let current = strings(&["a", "b"]);
    let next = strings(&["b", "c", "d"]);
    assert_eq!(
        removed_listener_rejection(&current, &next).as_deref(),
        Some("runtime reload rejected: listener 'a' was removed or its bind address changed; restart required")
    );
    assert_eq!(removed_listener_rejection(&strings(&["b"]), &next), None);
    assert_eq!(added_listeners(&current, &next), strings(&["c", "d"]));
    assert_eq!(
        preflight_rejection(PreflightStage::QuicListener, "c", "in use"),
        "runtime reload rejected: failed to preflight QUIC listener c: in use"
    );
    assert_eq!(
        preflight_rejection(PreflightStage::BootstrapListener, "c", "denied"),
        "runtime reload rejected: failed to preflight bootstrap listener c: denied"
    );
    assert!(preflight_uses_reuseport(4));
    assert!(!preflight_uses_reuseport(1));
    assert!(!preflight_uses_reuseport(0));
}

#[test]
fn control_api_reload_checks_tls_and_bind_changes() {
    let current = endpoint();
    let mut next = endpoint();
    assert_eq!(
        control_api_reload_check(&current, &next, Some("main"), true),
        ReloadBindCheck::Compatible
    );
    next.port = 9444;
    assert_eq!(
        control_api_reload_check(&current, &next, Some("main"), true),
        ReloadBindCheck::ProbeBind("127.0.0.1:9444".to_string())
    );
    assert_eq!(
        control_api_reload_check(&current, &next, Some("main"), false),
        ReloadBindCheck::Rejected(
            "runtime reload rejected: control API TLS config missing for listener 'main'".to_string()
        )
    );
    assert_eq!(
        control_api_reload_check(&current, &next, None, true),
        ReloadBindCheck::Rejected(
            "runtime reload rejected: no effective listeners configured for control API TLS"
                .to_string()
        )
    );
    next.enabled = false;
    assert_eq!(
        control_api_reload_check(&current, &next, None, false),
        ReloadBindCheck::Compatible
    );
    assert_eq!(bind_address("0.0.0.0", 80), "0.0.0.0:80");
}

#[test]
fn metrics_reload_probes_only_moved_endpoint() {
    let current = MetricsEndpoint {
        enabled: true,
        address: "0.0.0.0".to_string(),
        port: 9100,
    };
    let mut next = current.clone();
    assert_eq!(metrics_reload_check(&current, &next), None);
    next.address = "127.0.0.1".to_string();
    assert_eq!(
        metrics_reload_check(&current, &next).as_deref(),
        Some("127.0.0.1:9100")
    );
    let disabled = MetricsEndpoint {
        enabled: false,
        ..current.clone()
    };
    assert_eq!(
        metrics_reload_check(&disabled, &current).as_deref(),
        Some("0.0.0.0:9100")
    );
    assert_eq!(metrics_reload_check(&current, &disabled), None);
}

fn same(value: &str) -> StartupOwnedChange {
    StartupOwnedChange { current: value.to_string(), next: value.to_string(), changed: false }
}

fn change(current: &str, next: &str) -> StartupOwnedChange {
    StartupOwnedChange {
        current: current.to_string(),
        next: next.to_string(),
        changed: current != next,
    }
}

fn settings(level: StartupOwnedChange, threads: StartupOwnedChange) -> StartupOwnedSettings {
    StartupOwnedSettings {
        log_level: level,
        log_file_enabled: same("false"),
        log_file_path: same("\"/var/log/spooky.log\""),
        log_format: same("Json"),
        tracing_enabled: same("false"),
        tracing_service_name: same("\"spooky\""),
        tracing_otlp_endpoint: same("None"),
        tracing_sample_ratio: same("1.0"),
        control_plane_threads: threads,
    }
}

#[test]
fn startup_owned_settings_report_each_change() {
    assert!(validate_startup_owned_reload_compatibility(&settings(same("Info"), same("2"))).is_empty());
    let issues = validate_startup_owned_reload_compatibility(&settings(
        change("Info", "Debug"),
        change("2", "4"),
    ));
    assert_eq!(
        issues,
        strings(&[
            "runtime reload rejected: log.level changed from Info to Debug; restart required",
            "runtime reload rejected: performance.control_plane_threads changed from 2 to 4; restart required",
        ])
    );
}

#[test]
fn startup_owned_change_follows_the_comparison_not_the_rendering() {
    // -0.0 == 0.0 although the renderings differ; NaN != NaN although they agree.
    let mut s = settings(same("Info"), same("2"));
    s.tracing_sample_ratio = StartupOwnedChange {
        current: format!("{:?}", -0.0f64),
        next: format!("{:?}", 0.0f64),
        changed: -0.0f64 != 0.0f64,
    };
    assert!(validate_startup_owned_reload_compatibility(&s).is_empty());
    let nan = f64::NAN;
    s.tracing_sample_ratio = StartupOwnedChange {
        current: format!("{:?}", nan),
        next: format!("{:?}", nan),
        changed: nan.partial_cmp(&nan).is_none(),
    };
    assert_eq!(
        validate_startup_owned_reload_compatibility(&s),
        strings(&[
            "runtime reload rejected: observability.tracing.sample_ratio changed from NaN to NaN; restart required",
        ])
    );
}

#[test]
fn lb_key_spec_picks_request_attributes() {
    let headers = vec![
        ("Authorization".to_string(), "Bearer tok".to_string()),
        ("cookie".to_string(), "a=1; Session = s1 ; c".to_string()),
        ("x-tenant".to_string(), "t1".to_string()),
    ];
    let h = Some(&headers);
    let resolve = |spec: &str| {
        resolve_lb_key_from_spec(spec, "GET", "/p/q?x=1&Y=2", Some("example.com"), Some("cid-1"), Some("10.0.0.9"), h)
    };
    assert_eq!(resolve(" PATH ").as_deref(), Some("/p/q"));
    assert_eq!(resolve("authority").as_deref(), Some("example.com"));
    assert_eq!(resolve("method").as_deref(), Some("GET"));
    assert_eq!(resolve("sticky-cid").as_deref(), Some("cid-1"));
    assert_eq!(resolve("client_ip").as_deref(), Some("10.0.0.9"));
    assert_eq!(resolve("bearer_token").as_deref(), Some("tok"));
    assert_eq!(resolve("header:X-Tenant").as_deref(), Some("t1"));
    assert_eq!(resolve("header:missing"), None);
    assert_eq!(resolve("cookie:session").as_deref(), Some("s1"));
    assert_eq!(resolve("query:y").as_deref(), Some("2"));
    assert_eq!(resolve("query: "), None);
    assert_eq!(resolve("body:x"), None);
    assert_eq!(resolve(""), None);
    assert_eq!(
        resolve_lb_key_from_spec("header:x-tenant", "GET", "/", None, None, None, None),
        None
    );
}

#[test]
fn cookie_and_query_extraction() {
    assert_eq!(extract_cookie_value("a=1; b=2", "B").as_deref(), Some("2"));
    assert_eq!(extract_cookie_value("a=1; b=  ", "b"), None);
    assert_eq!(extract_cookie_value("bad; b=2", "b"), None);
    assert_eq!(extract_cookie_value(" ; ;b=2;", "b").as_deref(), Some("2"));
    assert_eq!(extract_cookie_value("", "b"), None);
    assert_eq!(extract_query_param("/p?a=&a=3", "A").as_deref(), Some("3"));
    assert_eq!(extract_query_param("/p", "a"), None);
    assert_eq!(extract_query_param("/p?x&a=1", "a"), None);
    assert_eq!(extract_query_param("/p?b=1&&a=2", "a").as_deref(), Some("2"));
}

#[test]
fn lb_request_key_falls_back_to_cid_then_default() {
    assert_eq!(default_lb_request_key("GET", "/p", Some("host")), "host");
    assert_eq!(default_lb_request_key("GET", "/p", None), "/p");
    assert_eq!(default_lb_request_key("GET", "", None), "GET");
    assert_eq!(
        resolve_lb_request_key("sticky-cid", Some("header:x"), "GET", "/p", None, Some("cid"), None),
        "cid"
    );
    assert_eq!(
        resolve_lb_request_key("round-robin", Some("method"), "GET", "/p", None, Some("cid"), None),
        "GET"
    );
    assert_eq!(
        resolve_lb_request_key("round-robin", None, "GET", "/p", Some("a"), Some("cid"), None),
        "a"
    );
}

#[test]
fn route_resolution_failures_are_classified_and_answered() {
    assert_eq!(
        classify_route_resolution_failure(&no_route_error("/x")),
        RouteResolutionFailureKind::NoRoute
    );
    assert_eq!(
        classify_route_resolution_failure(&pool_not_found_error("api")),
        RouteResolutionFailureKind::MissingPool
    );
    assert_eq!(
        classify_route_resolution_failure(&pool_lock_poisoned_error()),
        RouteResolutionFailureKind::PoolLockPoisoned
    );
    assert_eq!(
        classify_route_resolution_failure(&no_servers_in_upstream_error()),
        RouteResolutionFailureKind::NoServers
    );
    assert_eq!(
        classify_route_resolution_failure(&no_healthy_servers_error()),
        RouteResolutionFailureKind::NoHealthyServers
    );
    assert_eq!(
        classify_route_resolution_failure(&invalid_server_address_error()),
        RouteResolutionFailureKind::InvalidServerAddress
    );
    assert_eq!(
        classify_route_resolution_failure(&empty_method_or_path_error()),
        RouteResolutionFailureKind::OtherTransport
    );
    assert_eq!(
        classify_route_resolution_failure(&ProxyError::Timeout),
        RouteResolutionFailureKind::Other
    );
    assert_eq!(
        classify_route_resolution_transport_reason("no route for"),
        RouteResolutionFailureKind::OtherTransport
    );
    assert_eq!(
        bootstrap_route_resolution_error_response(&no_route_error("/x")),
        (502, "no route\n")
    );
    assert_eq!(
        bootstrap_route_resolution_error_response(&no_healthy_servers_error()),
        (503, "no healthy backends\n")
    );
    assert_eq!(
        bootstrap_route_resolution_error_response(&invalid_server_address_error()),
        (503, "no backends\n")
    );
    assert_eq!(
        bootstrap_route_resolution_error_response(&ProxyError::Timeout),
        (502, "route/backend resolution failed\n")
    );
    let request = RouteResolutionRequest::new("GET", "/x", Some("h"), None, None);
    assert_eq!(request.method, "GET");
    assert_eq!(request.authority, Some("h"));
}

fn watchdog_config() -> Watchdog {
    Watchdog {
        check_interval_ms: 1_000,
        poll_stall_timeout_ms: 2_000,
        timeout_error_rate_percent: 50,
        min_requests_per_window: 10,
        overload_inflight_percent: 95,
        unhealthy_consecutive_windows: 2,
        drain_grace_ms: 5_000,
        restart_cooldown_ms: 60_000,
        restart_command: strings(&[" /usr/bin/restart ", "--now"]),
        restart_hook: None,
    }
}

#[test]
fn watchdog_requests_restart_after_consecutive_degraded_windows() {
    let config = watchdog_config();
    let mut state = WatchdogWindowState {
        previous_requests: 0,
        previous_timeouts: 0,
        degraded_windows: 0,
    };
    let first = evaluate_watchdog_window(
        &config,
        true,
        &mut state,
        &WatchdogWindowSample {
            now_ms: 10_000,
            last_poll_progress_ms: 9_500,
            requests_total: 100,
            backend_timeouts: 60,
            inflight_percent: 10,
        },
    );
    assert!(first.timeout_pressure && first.degraded && !first.stalled);
    assert_eq!(first.action, WatchdogWindowAction::Continue);
    assert_eq!(state.degraded_windows, 1);
    let second = evaluate_watchdog_window(
        &config,
        true,
        &mut state,
        &WatchdogWindowSample {
            now_ms: 20_000,
            last_poll_progress_ms: 10_000,
            requests_total: 100,
            backend_timeouts: 60,
            inflight_percent: 99,
        },
    );
    assert!(second.stalled && second.overload_pressure && !second.timeout_pressure);
    assert_eq!(
        second.action,
        WatchdogWindowAction::RequestRestart("poll_stall+inflight_overload".to_string())
    );
    assert_eq!(state.degraded_windows, 0);
    assert_eq!(state.previous_requests, 100);
}

#[test]
fn watchdog_resets_on_healthy_window_and_warns_without_command() {
    let config = watchdog_config();
    let mut state = WatchdogWindowState {
        previous_requests: 0,
        previous_timeouts: 0,
        degraded_windows: 1,
    };
    let healthy = evaluate_watchdog_window(
        &config,
        false,
        &mut state,
        &WatchdogWindowSample {
            now_ms: 1_000,
            last_poll_progress_ms: 1_000,
            requests_total: 5,
            backend_timeouts: 5,
            inflight_percent: 0,
        },
    );
    assert!(!healthy.degraded);
    assert_eq!(state.degraded_windows, 0);
    state.degraded_windows = 1;
    let warned = evaluate_watchdog_window(
        &config,
        false,
        &mut state,
        &WatchdogWindowSample {
            now_ms: 1_000,
            last_poll_progress_ms: 1_000,
            requests_total: 5,
            backend_timeouts: 5,
            inflight_percent: 100,
        },
    );
    assert_eq!(warned.action, WatchdogWindowAction::WarnNoRestartCommand);
    assert_eq!(state.degraded_windows, 0);
}

#[test]
fn watchdog_restart_runs_after_drain_or_grace() {
    assert!(!restart_due(false, true, Some(10_000), 5_000));
    assert!(restart_due(true, true, None, 5_000));
    assert!(restart_due(true, false, Some(5_000), 5_000));
    assert!(!restart_due(true, false, Some(4_999), 5_000));
    assert!(!restart_due(true, false, None, 5_000));
    let command = watchdog_config().restart_command;
    assert_eq!(restart_program(&command).as_deref(), Some("/usr/bin/restart"));
    assert_eq!(restart_args(&command), strings(&["--now"]));
    assert_eq!(restart_program(&strings(&["  "])), None);
    assert_eq!(restart_program(&Vec::new()), None);
    assert!(restart_args(&Vec::new()).is_empty());
}

#[test]
fn watchdog_restart_env_keeps_path_when_present() {
    let env = watchdog_restart_env(Some("/usr/bin:/bin".to_string()), "timeout_spike");
    let map: std::collections::HashMap<String, String> = env.into_iter().collect();

    assert_eq!(map.get("PATH"), Some(&"/usr/bin:/bin".to_string()));
    assert_eq!(
        map.get("SPOOKY_WATCHDOG_REASON"),
        Some(&"timeout_spike".to_string())
    );
}

#[test]
fn watchdog_restart_env_omits_path_when_missing() {
    let env = watchdog_restart_env(None, "poll_stall");
    let map: std::collections::HashMap<String, String> = env.into_iter().collect();

    assert!(!map.contains_key("PATH"));
    assert_eq!(
        map.get("SPOOKY_WATCHDOG_REASON"),
        Some(&"poll_stall".to_string())
    );
}

#[test]
fn bearer_scheme_in_any_case_carries_token() {
    for scheme in ["bearer", "BEARER", "BeArEr"] {
        let header = format!("{scheme} tok-9");
        assert_eq!(
            bearer_token_from_authorization_header(&header).as_deref(),
            Some("tok-9")
        );
        assert!(control_api_is_authorized(Some("tok-9"), Some(&header)));
    }
}

#[test]
fn control_api_startup_follows_requirements() {
    let mut e = endpoint();
    e.enabled = false;
    assert!(matches!(control_api_startup(false, &e, Some("main"), true, true), ControlApiStartup::Disabled));
    assert!(matches!(control_api_startup(true, &e, Some("main"), false, true), ControlApiStartup::Serve));
    e.enabled = true;
    assert!(matches!(
        control_api_startup(false, &e, None, true, true),
        ControlApiStartup::Fail(ProxyError::Transport(ref m)) if m == "no effective listeners configured"
    ));
    assert!(matches!(
        control_api_startup(false, &e, Some("main"), false, true),
        ControlApiStartup::Skip(ref m) if m == "failed to initialize control API TLS config: missing reload state for listener 'main'"
    ));
    e.required = true;
    assert!(matches!(
        control_api_startup(false, &e, Some("main"), false, true),
        ControlApiStartup::Fail(ProxyError::Tls(_))
    ));
    assert!(matches!(
        control_api_startup(false, &e, Some("main"), true, false),
        ControlApiStartup::Fail(ProxyError::Transport(ref m)) if m == "control API disabled (no Tokio runtime available)"
    ));
    assert!(matches!(control_api_startup(false, &e, Some("main"), true, true), ControlApiStartup::Serve));
    assert!(matches!(
        control_api_bind_failure(true, "busy".to_string()),
        Some(ProxyError::Transport(ref m)) if m == "busy"
    ));
    assert!(control_api_bind_failure(false, "busy".to_string()).is_none());
}

#[test]
fn control_api_listener_rebinds_on_address_change() {
    assert_eq!(
        control_api_listener_step(false, Some("127.0.0.1:9443"), "127.0.0.1", 9443),
        ControlApiListenerStep::Disabled { drop_binding: true }
    );
    assert_eq!(
        control_api_listener_step(false, None, "127.0.0.1", 9443),
        ControlApiListenerStep::Disabled { drop_binding: false }
    );
    assert_eq!(
        control_api_listener_step(true, Some("127.0.0.1:9443"), "127.0.0.1", 9443),
        ControlApiListenerStep::Accept
    );
    assert_eq!(
        control_api_listener_step(true, Some("127.0.0.1:9443"), "0.0.0.0", 9443),
        ControlApiListenerStep::Rebind("0.0.0.0:9443".to_string())
    );
    assert_eq!(
        control_api_listener_step(true, None, "0.0.0.0", 1),
        ControlApiListenerStep::Rebind("0.0.0.0:1".to_string())
    );
}

#[test]
fn validate_control_api_reload_compatibility_allows_bind_change_when_socket_is_free() {
    let current = endpoint();
    let mut next = current.clone();
    next.port = 9555;
    // The moved endpoint only needs its new address to be bindable.
    assert_eq!(
        control_api_reload_check(&current, &next, Some("127.0.0.1:9889"), true),
        ReloadBindCheck::ProbeBind("127.0.0.1:9555".to_string())
    );
}

#[test]
fn validate_metrics_reload_compatibility_allows_bind_change_when_socket_is_free() {
    let current = MetricsEndpoint {
        enabled: true,
        address: "127.0.0.1".to_string(),
        port: 9100,
    };
    let mut next = current.clone();
    next.port = 9200;
    assert_eq!(
        metrics_reload_check(&current, &next).as_deref(),
        Some("127.0.0.1:9200")
    );
}

#[test]
fn validate_startup_owned_reload_compatibility_rejects_log_change() {
    let mut s = settings(same("Info"), same("2"));
    s.log_level = change("\"info\"", "\"debug\"");
    let issues = validate_startup_owned_reload_compatibility(&s);
    assert!(issues
        .iter()
        .any(|issue| issue.contains("log.level") && issue.contains("restart required")));
}

#[test]
fn validate_startup_owned_reload_compatibility_allows_worker_topology_change() {
    // Worker threads and packet shards are not startup-owned settings.
    let issues = validate_startup_owned_reload_compatibility(&settings(same("\"info\""), same("1")));
    assert!(issues.is_empty());
}

#[test]
fn validate_startup_owned_reload_compatibility_rejects_control_plane_thread_change() {
    let issues = validate_startup_owned_reload_compatibility(&settings(same("\"info\""), change("1", "7")));
    assert!(issues
        .iter()
        .any(|issue| issue.contains("performance.control_plane_threads")));
}

#[test]
fn validate_runtime_reload_compatibility_allows_listener_addition_when_binds_are_free() {
    let current = strings(&["0.0.0.0:9889"]);
    let next = strings(&["0.0.0.0:9889", "0.0.0.0:9891"]);
    assert_eq!(removed_listener_rejection(&current, &next), None);
    // Only the added listener is preflighted.
    assert_eq!(added_listeners(&current, &next), strings(&["0.0.0.0:9891"]));
}

#[test]
fn validate_runtime_reload_compatibility_rejects_listener_removal() {
    let current = strings(&["0.0.0.0:9889"]);
    let next = strings(&["0.0.0.0:9892"]);
    let err = removed_listener_rejection(&current, &next);
    assert!(
        err.as_deref().is_some_and(|e| e.contains("restart required")),
        "expected rejection, got: {:?}",
        err
    );
}

#[test]
fn validate_runtime_reload_compatibility_rejects_listener_bind_change() {
    let current = strings(&["0.0.0.0:9889"]);
    let next = strings(&["0.0.0.0:9893"]);
    let err = removed_listener_rejection(&current, &next);
    assert!(
        err.as_deref().is_some_and(|e| e.contains("restart required")),
        "expected rejection, got: {:?}",
        err
    );
}

fn transport_message<T: std::fmt::Debug>(r: Result<T, ProxyError>) -> String {
    match r {
        Err(ProxyError::Transport(m)) => m,
        other => panic!("expected a transport failure, got {other:?}"),
    }
}

#[test]
fn route_target_checks_request_route_and_pool_in_order() {
    let pools = strings(&["api", "static"]);
    let decision = RouteDecision {
        upstream: "api",
        matched_path_len: 4,
        host_specific: true,
        reason: RouteDecisionReason::HostPathLongerOrEqual,
    };
    let ok = RouteResolutionRequest::new("GET", "/api/x", Some("example.com"), None, None);
    assert_eq!(
        resolve_route_target(&ok, Some(decision), &pools).unwrap(),
        ResolvedRoute {
            upstream_name: "api".to_string(),
            route_path_len: 4,
            route_host_specific: true,
            route_reason: RouteDecisionReason::HostPathLongerOrEqual,
        }
    );
    let empty = RouteResolutionRequest::new("", "/api/x", None, None, None);
    assert_eq!(
        transport_message(resolve_route_target(&empty, Some(decision), &pools)),
        "empty method or path"
    );
    assert_eq!(
        transport_message(resolve_route_target(&ok, None, &pools)),
        "no route for /api/x"
    );
    let missing = RouteDecision { upstream: "admin", ..decision };
    assert_eq!(
        transport_message(resolve_route_target(&ok, Some(missing), &pools)),
        "pool not found: admin"
    );
}

#[test]
fn backend_selection_steps_answer_each_failure() {
    let pool = BackendPool::new_from_states(vec![
        create_backend_state("10.0.0.1:80", 1),
        create_backend_state("10.0.0.2:80", 1),
    ]);
    let empty = BackendPool::new_from_states(vec![]);
    assert!(check_locked_pool(false, &pool).is_ok());
    assert_eq!(transport_message(check_locked_pool(true, &pool)), "upstream pool lock poisoned");
    assert_eq!(transport_message(check_locked_pool(false, &empty)), "no servers in upstream");

    let chosen = SelectedBackend {
        backend_addr: "10.0.0.2:80".to_string(),
        backend_index: 1,
        backend_lb: "round-robin".to_string(),
    };
    assert_eq!(
        select_backend_readonly(&pool, false, Some(1), true, true, "round-robin"),
        Some(chosen.clone())
    );
    assert_eq!(select_backend_readonly(&pool, true, Some(1), false, true, "round-robin"), None);
    assert_eq!(select_backend_readonly(&pool, false, None, false, true, "round-robin"), None);
    assert_eq!(select_backend_readonly(&pool, false, Some(5), false, true, "round-robin"), None);
    assert_eq!(select_backend_readonly(&pool, false, Some(1), true, false, "round-robin"), None);
    assert_eq!(
        select_backend_readonly(&pool, false, Some(1), false, false, "round-robin"),
        Some(chosen.clone())
    );

    assert_eq!(select_backend_with_write_lock(&pool, Some(1), "round-robin").unwrap(), chosen);
    assert_eq!(
        transport_message(select_backend_with_write_lock(&pool, None, "round-robin")),
        "no healthy servers"
    );
    assert_eq!(
        transport_message(select_backend_with_write_lock(&pool, Some(2), "round-robin")),
        "invalid server address"
    );
}

#[test]
fn reload_runs_its_stages_in_order_and_stops_at_the_first_failure() {
    assert_eq!(reload_start(false), ReloadNext::Refuse(401, "unauthorized".to_string()));
    assert_eq!(reload_start(true), ReloadNext::Run(ReloadStage::ReadConfig));
    let order = [
        ReloadStage::ReadConfig,
        ReloadStage::Validate,
        ReloadStage::Normalize,
        ReloadStage::BuildSharedState,
        ReloadStage::RuntimeCheck,
        ReloadStage::ControlApiCheck,
        ReloadStage::MetricsCheck,
        ReloadStage::StartupOwnedCheck,
        ReloadStage::Replace,
    ];
    for pair in order.windows(2) {
        assert_eq!(reload_step(pair[0], Ok(()), 7), ReloadNext::Run(pair[1]));
    }
    assert_eq!(reload_step(ReloadStage::Replace, Ok(()), 7), ReloadNext::Reloaded(8));
    assert_eq!(reload_step(ReloadStage::Replace, Ok(()), u64::MAX), ReloadNext::Reloaded(u64::MAX));
    assert_eq!(
        reload_step(ReloadStage::Validate, Err(ReloadFailure::Validation("bad".to_string())), 7),
        ReloadNext::Refuse(400, "Configuration validation failed: bad".to_string())
    );
    assert_eq!(
        reload_step(
            ReloadStage::StartupOwnedCheck,
            Err(ReloadFailure::StartupOwned(strings(&["a", "b"]))),
            7
        ),
        ReloadNext::Refuse(409, "a; b".to_string())
    );
    assert_eq!(
        reload_step(ReloadStage::ReadConfig, Err(ReloadFailure::ReadConfig("missing".to_string())), 7),
        ReloadNext::Refuse(500, "missing".to_string())
    );
}
