use spooky::errors::proxy::{BridgeError, PoolError, ProxyError};
use spooky::errors::retry::{
    classify_retryability, evaluate_retry_policy, is_idempotent_method, is_retryable,
    RetryPolicyDecision, RetryPolicyDenialReason, RetryPolicyFacts, RetryTelemetryReason,
    UpstreamRetryReason, UpstreamRetryability, UpstreamTerminalErrorKind,
};
use spooky::errors::upstream::{
    UpstreamErrorCategory, UpstreamErrorClassification, UpstreamErrorDetails, UpstreamTlsReason,
};

fn retry_facts() -> RetryPolicyFacts {
    RetryPolicyFacts {
        retryability: UpstreamRetryability::Retryable(UpstreamRetryReason::Timeout),
        method_idempotent: true,
        request_body_replayable: true,
        attempt_count: 0,
        max_attempts: 1,
        budget_available: true,
        alternate_backend_available: true,
        alternate_backend_healthy: true,
    }
}

#[test]
fn idempotent_method_helper_matches_expected_methods() {
    assert!(is_idempotent_method("GET"));
    assert!(is_idempotent_method("delete"));
    assert!(!is_idempotent_method("POST"));
    assert!(!is_idempotent_method("PATCH"));
}

#[test]
fn idempotent_method_helper_covers_all_safe_methods() {
    for m in ["HEAD", "put", "Options", "trace"] {
        assert!(is_idempotent_method(m));
    }
    assert!(!is_idempotent_method(""));
    assert!(!is_idempotent_method("GETS"));
}

#[test]
fn terminal_errors_return_explicit_denial() {
    let mut facts = retry_facts();
    facts.retryability = UpstreamRetryability::Terminal(UpstreamTerminalErrorKind::Tls);
    assert_eq!(
        evaluate_retry_policy(facts),
        RetryPolicyDecision::DoNotRetry {
            denial: Some(RetryPolicyDenialReason::TerminalError(UpstreamTerminalErrorKind::Tls)),
        }
    );
}

#[test]
fn method_idempotency_blocks_retry() {
    let mut facts = retry_facts();
    facts.method_idempotent = false;
    assert_eq!(
        evaluate_retry_policy(facts),
        RetryPolicyDecision::DoNotRetry { denial: Some(RetryPolicyDenialReason::MethodNotIdempotent) }
    );
}

#[test]
fn request_body_replayability_blocks_retry() {
    let mut facts = retry_facts();
    facts.request_body_replayable = false;
    assert_eq!(
        evaluate_retry_policy(facts),
        RetryPolicyDecision::DoNotRetry {
            denial: Some(RetryPolicyDenialReason::RequestBodyNotReplayable),
        }
    );
}

#[test]
fn attempt_limit_blocks_retry() {
    let mut facts = retry_facts();
    facts.attempt_count = 1;
    assert_eq!(
        evaluate_retry_policy(facts),
        RetryPolicyDecision::DoNotRetry { denial: Some(RetryPolicyDenialReason::AttemptLimitReached) }
    );
}

#[test]
fn budget_and_alternate_backend_block_retry() {
    let mut facts = retry_facts();
    facts.budget_available = false;
    assert_eq!(
        evaluate_retry_policy(facts),
        RetryPolicyDecision::DoNotRetry { denial: Some(RetryPolicyDenialReason::BudgetDenied) }
    );
    let mut facts = retry_facts();
    facts.alternate_backend_available = false;
    assert_eq!(
        evaluate_retry_policy(facts),
        RetryPolicyDecision::DoNotRetry { denial: Some(RetryPolicyDenialReason::NoAlternateBackend) }
    );
}

#[test]
fn unhealthy_alternate_backend_blocks_retry() {
    let mut facts = retry_facts();
    facts.alternate_backend_healthy = false;
    assert_eq!(
        evaluate_retry_policy(facts),
        RetryPolicyDecision::DoNotRetry {
            denial: Some(RetryPolicyDenialReason::AlternateBackendUnhealthy),
        }
    );
}

#[test]
fn retryable_timeout_allows_retry() {
    assert_eq!(
        evaluate_retry_policy(retry_facts()),
        RetryPolicyDecision::Retry { reason: UpstreamRetryReason::Timeout }
    );
}

#[test]
fn proxy_errors_classify_by_kind() {
    assert_eq!(
        classify_retryability(&ProxyError::Transport("reset".to_string())),
        UpstreamRetryability::Retryable(UpstreamRetryReason::Transport)
    );
    assert_eq!(
        classify_retryability(&ProxyError::Timeout),
        UpstreamRetryability::Retryable(UpstreamRetryReason::Timeout)
    );
    assert_eq!(
        classify_retryability(&ProxyError::Pool(PoolError::Send("closed".to_string()))),
        UpstreamRetryability::Terminal(UpstreamTerminalErrorKind::PoolSend)
    );
    assert_eq!(
        classify_retryability(&ProxyError::Pool(PoolError::Unavailable("full".to_string()))),
        UpstreamRetryability::Retryable(UpstreamRetryReason::Pool)
    );
    assert!(!is_retryable(&ProxyError::Tls("bad cert".to_string())));
    assert!(!is_retryable(&ProxyError::Protocol("h2".to_string())));
    assert!(!is_retryable(&ProxyError::Bridge(BridgeError::InvalidUri)));
    assert!(is_retryable(&ProxyError::Timeout));
}

#[test]
fn retry_telemetry_reason_follows_retry_reason() {
    assert_eq!(
        RetryTelemetryReason::from_retry_reason(UpstreamRetryReason::Pool),
        RetryTelemetryReason::Pool
    );
}

#[test]
fn display_covers_simple_bridge_variants() {
    assert_eq!(BridgeError::InvalidMethod.message(), "invalid HTTP method");
    assert_eq!(BridgeError::InvalidUri.message(), "invalid URI");
    assert_eq!(BridgeError::InvalidHeader.message(), "invalid header");
}

#[test]
fn build_variant_display_includes_http_error() {
    let err = http::Request::builder()
        .header("bad\nname", "value")
        .body(())
        .expect_err("invalid header name should fail request build");
    let error = BridgeError::Build(err);
    assert!(error.message().starts_with("failed to build request: "));
}

#[test]
fn upstream_error_classification_constructors() {
    assert_eq!(UpstreamErrorClassification::timeout().category, UpstreamErrorCategory::Timeout);
    assert_eq!(UpstreamErrorClassification::transport().tls_reason, None);
    let tls = UpstreamErrorClassification::tls(UpstreamTlsReason::Alpn);
    assert_eq!(tls.category, UpstreamErrorCategory::Tls);
    assert_eq!(tls.tls_reason, Some(UpstreamTlsReason::Alpn));
    assert_eq!(UpstreamErrorClassification::protocol().category, UpstreamErrorCategory::Protocol);
    assert_eq!(UpstreamErrorClassification::internal().category, UpstreamErrorCategory::Internal);
    let d = UpstreamErrorDetails::new("refused".to_string(), true);
    assert_eq!(d.detail, "refused");
    assert!(d.is_connect);
}
