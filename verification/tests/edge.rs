use spooky::bench::{
    default_macro_stream_chunk_bytes, default_macro_stream_chunks,
    default_macro_stream_iterations, default_macro_traffic_mix_iterations, default_true,
    regression_verdict, resolve_baseline_paths, suite_label, FailOn, RegressionSeverity, unix_now, unix_seconds_or_zero, BenchSuite,
    ReleaseBaselineEntry, ReleaseBaselineIndex,
};
use spooky::bridge::response::{
    is_hop_by_hop_response_header, normalize_response_trailers, response_connection_tokens,
    should_strip_response_header, ResponseNormalizationProtocol, ResponseProtocolConstraints,
};
use spooky::errors::proxy::{PoolError, ProxyError};
use spooky::errors::retry::{HedgeTelemetryReason, RetryPolicyDenialReason, RetryTelemetryReason};
use spooky::quic_listener::admission::AuthChallengeKind;
use spooky::quic_listener::bootstrap::dispatch::{
    bootstrap_dispatch_failure_response, BootstrapDispatchFailure,
};
use spooky::runtime::connection::auth::{
    ExternalAuthExecutionPolicy, ExternalAuthFailureDisposition, ExternalAuthMutationIntent,
    ExternalAuthProviderInput, ExternalAuthProviderKind, PendingHeaderMutation,
    RuntimeExternalAuth, RuntimeExternalAuthFailureMode,
};
use spooky::runtime::connection::response::{
    ForwardingPolicyTelemetry, HedgeTelemetry, RetryTelemetry,
};
use spooky::runtime::health::{outcome_from_status, HealthClassification};
use spooky::time::TimeSpan;

fn header(name: &str, value: &[u8]) -> (String, Vec<u8>) {
    (name.to_string(), value.to_vec())
}

fn h3() -> ResponseProtocolConstraints {
    ResponseProtocolConstraints {
        protocol: ResponseNormalizationProtocol::Http3,
        strip_connection_headers: true,
        allow_trailers: true,
        preserve_upgrade: false,
    }
}

#[test]
fn connection_tokens_are_lowercased_trimmed_and_unique() {
    let headers = vec![
        header("connection", b" Keep-Alive , X-Foo,,"),
        header("connection", b"x-foo, X-Bar"),
        header("x-other", b"x-baz"),
        header("connection", b"x-bad\x01"),
    ];
    let mut tokens = response_connection_tokens(&headers);
    tokens.sort();
    assert_eq!(tokens, vec!["keep-alive", "x-bar", "x-foo"]);
}

#[test]
fn hop_by_hop_headers_are_recognized() {
    assert!(is_hop_by_hop_response_header("connection", false));
    assert!(is_hop_by_hop_response_header("transfer-encoding", false));
    assert!(is_hop_by_hop_response_header("upgrade", false));
    assert!(!is_hop_by_hop_response_header("upgrade", true));
    assert!(is_hop_by_hop_response_header("Keep-Alive", true));
    assert!(is_hop_by_hop_response_header("proxy-connection", false));
    assert!(!is_hop_by_hop_response_header("content-type", false));
}

#[test]
fn strip_rules_follow_protocol_and_connection_tokens() {
    let tokens = vec!["x-foo".to_string()];
    let mut c = h3();
    assert!(should_strip_response_header("x-foo", &tokens, c));
    assert!(should_strip_response_header("content-length", &tokens, c));
    assert!(!should_strip_response_header("alt-svc", &tokens, c));
    c.strip_connection_headers = false;
    assert!(!should_strip_response_header("x-foo", &tokens, c));
    c.protocol = ResponseNormalizationProtocol::Http1;
    assert!(should_strip_response_header("alt-svc", &tokens, c));
    assert!(!should_strip_response_header("content-length", &tokens, c));
}

#[test]
fn trailers_are_filtered_in_order() {
    let trailers = vec![
        header("grpc-status", b"0"),
        header("connection", b"x-drop"),
        header("x-drop", b"1"),
        header("te", b"trailers"),
        header("grpc-message", b"ok"),
    ];
    let kept = normalize_response_trailers(&trailers, h3());
    let names: Vec<&str> = kept.iter().map(|h| h.name.as_str()).collect();
    assert_eq!(names, vec!["grpc-status", "grpc-message"]);
    assert_eq!(kept[1].value, b"ok".to_vec());
    let mut no_trailers = h3();
    no_trailers.allow_trailers = false;
    assert!(normalize_response_trailers(&trailers, no_trailers).is_empty());
}

#[test]
fn health_outcome_follows_status_class() {
    assert_eq!(outcome_from_status(200), HealthClassification::Success);
    assert_eq!(outcome_from_status(302), HealthClassification::Success);
    assert_eq!(outcome_from_status(404), HealthClassification::Neutral);
    assert_eq!(outcome_from_status(499), HealthClassification::Neutral);
    assert_eq!(outcome_from_status(500), HealthClassification::Failure);
    assert_eq!(outcome_from_status(599), HealthClassification::Failure);
    assert_eq!(outcome_from_status(600), HealthClassification::Success);
}

#[test]
fn auth_failure_disposition_follows_mode() {
    assert!(ExternalAuthFailureDisposition::from_failure_mode(RuntimeExternalAuthFailureMode::FailOpen).fail_open());
    assert!(!ExternalAuthFailureDisposition::FailClosed.fail_open());
    let policy = ExternalAuthExecutionPolicy {
        timeout: TimeSpan::from_millis(100),
        failure_mode: RuntimeExternalAuthFailureMode::FailClosed,
    };
    assert_eq!(policy.disposition(), ExternalAuthFailureDisposition::FailClosed);
}

#[test]
fn header_mutations_convert_both_ways() {
    let intent = ExternalAuthMutationIntent::Upsert {
        name: b"x-user".to_vec(),
        value: b"alice".to_vec(),
    };
    let pending = PendingHeaderMutation::from(intent.clone());
    assert_eq!(
        pending,
        PendingHeaderMutation::Upsert {
            name: b"x-user".to_vec(),
            value: b"alice".to_vec()
        }
    );
    assert_eq!(ExternalAuthMutationIntent::from(pending), intent);
    let removal = PendingHeaderMutation::Remove { name: b"x-a".to_vec() };
    assert_eq!(
        ExternalAuthMutationIntent::from(removal),
        ExternalAuthMutationIntent::Remove { name: b"x-a".to_vec() }
    );
}

#[test]
fn retry_and_hedge_telemetry_record_events() {
    let mut retry = RetryTelemetry::new();
    retry.record_attempt(RetryTelemetryReason::Timeout);
    retry.record_attempt(RetryTelemetryReason::Pool);
    assert_eq!(retry.count, 2);
    assert_eq!(retry.attempt_reason, Some(RetryTelemetryReason::Pool));
    retry.record_denial(Some(RetryPolicyDenialReason::AttemptLimitReached));
    retry.record_denial(Some(RetryPolicyDenialReason::MethodNotIdempotent));
    assert_eq!(
        retry.denial_reason,
        Some(RetryPolicyDenialReason::AttemptLimitReached)
    );
    retry.count = u8::MAX;
    retry.record_attempt(RetryTelemetryReason::Transport);
    assert_eq!(retry.count, u8::MAX);

    let mut hedge = HedgeTelemetry::new();
    hedge.record_trigger(HedgeTelemetryReason::DelayElapsed);
    hedge.record_outcome(HedgeTelemetryReason::HedgeWon);
    hedge.observe_primary_late_ms(17);
    assert_eq!(hedge.trigger_reason, Some(HedgeTelemetryReason::DelayElapsed));
    assert_eq!(hedge.outcome_reason, Some(HedgeTelemetryReason::HedgeWon));
    assert_eq!(hedge.primary_late_ms, 17);
}

#[test]
fn admission_challenge_names_scheme() {
    assert_eq!(AuthChallengeKind::ApiKey.as_www_authenticate(), "ApiKey");
    assert_eq!(AuthChallengeKind::Bearer.as_www_authenticate(), "Bearer");
}

#[test]
fn bootstrap_dispatch_failures_map_to_gateway_errors() {
    let (status, body, err) = bootstrap_dispatch_failure_response(BootstrapDispatchFailure::Pool(
        PoolError::Send("reset".to_string()),
    ));
    assert_eq!((status, body), (502, "upstream error\n"));
    assert!(matches!(err, ProxyError::Pool(PoolError::Send(ref m)) if m == "reset"));
    let (status, body, err) = bootstrap_dispatch_failure_response(BootstrapDispatchFailure::Timeout);
    assert_eq!((status, body), (504, "upstream timeout\n"));
    assert!(matches!(err, ProxyError::Timeout));
}

#[test]
fn bench_defaults_and_labels() {
    assert_eq!(suite_label(BenchSuite::Micro), "micro");
    assert_eq!(suite_label(BenchSuite::Macro), "macro");
    assert_eq!(suite_label(BenchSuite::All), "all");
    assert!(default_true());
    assert_eq!(default_macro_traffic_mix_iterations(), 20_000);
    assert_eq!(default_macro_stream_iterations(), 8_000);
    assert_eq!(default_macro_stream_chunks(), 64);
    assert_eq!(default_macro_stream_chunk_bytes(), 8192);
    assert!(unix_now() > 1_600_000_000);
}

#[test]
fn telemetry_defaults_are_empty() {
    let t = ForwardingPolicyTelemetry::default();
    assert_eq!(t.retry.count, 0);
    assert_eq!(t.retry.attempt_reason, None);
    assert_eq!(t.hedge.primary_late_ms, 0);
    assert_eq!(RetryTelemetry::default(), RetryTelemetry::new());
    assert_eq!(HedgeTelemetry::default(), HedgeTelemetry::new());
}

#[test]
fn unix_seconds_default_to_zero_before_the_epoch() {
    assert_eq!(unix_seconds_or_zero(Some(1_700_000_000)), 1_700_000_000);
    assert_eq!(unix_seconds_or_zero(None), 0);
}

#[test]
fn external_auth_provider_input_borrows_the_configuration() {
    let http: RuntimeExternalAuth<String> = RuntimeExternalAuth::Http {
        endpoint: "https://auth.internal/check".to_string(),
        request_headers: vec!["x-request-id".to_string()],
        response_header_allowlist: vec!["x-user".to_string()],
        timeout: TimeSpan::from_millis(1_000),
        failure_mode: RuntimeExternalAuthFailureMode::FailClosed,
    };
    let input = ExternalAuthProviderInput::from(&http);
    assert_eq!(input.kind(), ExternalAuthProviderKind::Http);
    assert_eq!(input.request_headers(), &["x-request-id".to_string()][..]);
    assert_eq!(input.response_header_allowlist(), &["x-user".to_string()][..]);
    assert!(matches!(input, ExternalAuthProviderInput::Http { endpoint, .. } if endpoint == "https://auth.internal/check"));

    let oidc: RuntimeExternalAuth<String> = RuntimeExternalAuth::Oidc {
        discovery_url: Some("https://issuer.example.com/.well-known/openid-configuration".to_string()),
        issuer_url: None,
        client_id: "edge-gateway".to_string(),
        client_secret: Some("secret-1".to_string()),
        audience: Some("spooky-api".to_string()),
        scopes: vec!["openid".to_string(), "profile".to_string()],
        request_headers: Vec::new(),
        response_header_allowlist: Vec::new(),
        timeout: TimeSpan::from_millis(1_500),
        failure_mode: RuntimeExternalAuthFailureMode::FailOpen,
    };
    let input = ExternalAuthProviderInput::from(&oidc);
    assert_eq!(input.kind(), ExternalAuthProviderKind::Oidc);
    assert!(input.request_headers().is_empty());
    match input {
        ExternalAuthProviderInput::Oidc { discovery_url, issuer_url, client_id, client_secret, audience, scopes, .. } => {
            assert_eq!(discovery_url, Some("https://issuer.example.com/.well-known/openid-configuration"));
            assert_eq!(issuer_url, None);
            assert_eq!(client_id, "edge-gateway");
            assert_eq!(client_secret, Some("secret-1"));
            assert_eq!(audience, Some("spooky-api"));
            assert_eq!(scopes.len(), 2);
        }
        _ => panic!("expected an OIDC input"),
    }
}

#[test]
fn baseline_paths_come_from_the_flag_or_the_chosen_release() {
    let index = ReleaseBaselineIndex {
        current_release: "v1".to_string(),
        releases: vec![
            (
                "v1".to_string(),
                ReleaseBaselineEntry { micro: "b/v1/micro.json".to_string(), macro_report: "b/v1/macro.json".to_string() },
            ),
            (
                "v2".to_string(),
                ReleaseBaselineEntry { micro: "b/v2/micro.json".to_string(), macro_report: "b/v2/macro.json".to_string() },
            ),
        ],
    };
    assert_eq!(
        resolve_baseline_paths(BenchSuite::All, Some("x.json"), Some("v2"), &index),
        Ok(vec!["x.json".to_string()])
    );
    assert_eq!(
        resolve_baseline_paths(BenchSuite::All, None, None, &index),
        Ok(vec!["b/v1/micro.json".to_string(), "b/v1/macro.json".to_string()])
    );
    assert_eq!(
        resolve_baseline_paths(BenchSuite::Macro, None, Some("v2"), &index),
        Ok(vec!["b/v2/macro.json".to_string()])
    );
    assert_eq!(
        resolve_baseline_paths(BenchSuite::Micro, None, Some("v9"), &index),
        Err("release 'v9' missing from baseline index".to_string())
    );
    let no_current = ReleaseBaselineIndex { current_release: String::new(), ..index };
    assert_eq!(
        resolve_baseline_paths(BenchSuite::Micro, None, None, &no_current),
        Err("baseline not specified; pass --baseline or configure --baseline-release / current_release in baseline index".to_string())
    );
}

#[test]
fn regression_regressions_fail_by_mode() {
    let warn_only = vec![RegressionSeverity::Warn, RegressionSeverity::Warn];
    assert_eq!(regression_verdict(&warn_only, FailOn::Severe), None);
    assert_eq!(
        regression_verdict(&warn_only, FailOn::Any).as_deref(),
        Some("benchmark regression gate failed (severe=0, warn=2, mode=Any)")
    );
    let mixed = vec![RegressionSeverity::Severe, RegressionSeverity::Warn, RegressionSeverity::Severe];
    assert_eq!(
        regression_verdict(&mixed, FailOn::Severe).as_deref(),
        Some("benchmark regression gate failed (severe=2, warn=1, mode=Severe)")
    );
    assert_eq!(regression_verdict(&Vec::new(), FailOn::Any), None);
}
