use spooky::guardrails::{
    evaluate_request_body_ingress, evaluate_request_body_timeouts, BodyLimitKind, BodyTimeoutKind,
    RequestBodyGuardrailConfig, RequestBodyGuardrailDecision, RequestBodyGuardrailInput,
};
use spooky::hash::stable_hash64;
use spooky::time::TimeSpan;

#[test]
fn stable_hash64_matches_known_fnv1a_vectors() {
    let cases = [
        (b"" as &[u8], 0xcbf2_9ce4_8422_2325u64),
        (b"a" as &[u8], 0xaf63_dc4c_8601_ec8cu64),
        (b"foobar" as &[u8], 0x8594_4171_f739_67e8u64),
        (b"hello world" as &[u8], 0x779a_65e7_023c_d2e7u64),
    ];
    for (input, expected) in cases {
        assert_eq!(stable_hash64(input), expected, "FNV-1a mismatch for {:?}", input);
    }
}

#[test]
fn request_body_idle_timeout_rejects() {
    let decision = evaluate_request_body_timeouts(
        RequestBodyGuardrailConfig {
            idle_timeout: TimeSpan::from_secs(5),
            total_timeout: TimeSpan::from_secs(30),
            max_body_bytes: usize::MAX,
            max_buffered_bytes: usize::MAX,
        },
        RequestBodyGuardrailInput {
            elapsed: TimeSpan::from_secs(4),
            idle_for: TimeSpan::from_secs(5),
            bytes_received: 0,
            buffered_bytes: 0,
            next_chunk_bytes: 0,
            declared_content_length: None,
            exempt_from_body_size_cap: false,
        },
    );
    assert_eq!(decision, RequestBodyGuardrailDecision::Timeout { kind: BodyTimeoutKind::Idle });
}

#[test]
fn request_body_total_timeout_rejects() {
    let decision = evaluate_request_body_timeouts(
        RequestBodyGuardrailConfig {
            idle_timeout: TimeSpan::from_secs(5),
            total_timeout: TimeSpan::from_secs(30),
            max_body_bytes: usize::MAX,
            max_buffered_bytes: usize::MAX,
        },
        RequestBodyGuardrailInput {
            elapsed: TimeSpan::from_secs(30),
            idle_for: TimeSpan::from_secs(1),
            bytes_received: 0,
            buffered_bytes: 0,
            next_chunk_bytes: 0,
            declared_content_length: None,
            exempt_from_body_size_cap: false,
        },
    );
    assert_eq!(decision, RequestBodyGuardrailDecision::Timeout { kind: BodyTimeoutKind::Total });
}

#[test]
fn request_body_size_cap_respects_connect_exemption() {
    let config = RequestBodyGuardrailConfig {
        idle_timeout: TimeSpan::from_secs(5),
        total_timeout: TimeSpan::from_secs(30),
        max_body_bytes: 16,
        max_buffered_bytes: usize::MAX,
    };
    let input = RequestBodyGuardrailInput {
        elapsed: TimeSpan::zero(),
        idle_for: TimeSpan::zero(),
        bytes_received: 12,
        buffered_bytes: 0,
        next_chunk_bytes: 8,
        declared_content_length: None,
        exempt_from_body_size_cap: true,
    };
    assert_eq!(evaluate_request_body_ingress(config, input), RequestBodyGuardrailDecision::Continue);
    let not_exempt = RequestBodyGuardrailInput { exempt_from_body_size_cap: false, ..input };
    assert_eq!(
        evaluate_request_body_ingress(config, not_exempt),
        RequestBodyGuardrailDecision::Reject { kind: BodyLimitKind::BodySizeCap }
    );
}

#[test]
fn request_body_unknown_length_prebuffer_cap_rejects() {
    let decision = evaluate_request_body_ingress(
        RequestBodyGuardrailConfig {
            idle_timeout: TimeSpan::from_secs(5),
            total_timeout: TimeSpan::from_secs(30),
            max_body_bytes: usize::MAX,
            max_buffered_bytes: 10,
        },
        RequestBodyGuardrailInput {
            elapsed: TimeSpan::zero(),
            idle_for: TimeSpan::zero(),
            bytes_received: 0,
            buffered_bytes: 6,
            next_chunk_bytes: 5,
            declared_content_length: None,
            exempt_from_body_size_cap: false,
        },
    );
    assert_eq!(
        decision,
        RequestBodyGuardrailDecision::Reject { kind: BodyLimitKind::UnknownLengthPrebufferCap }
    );
}

#[test]
fn request_body_declared_length_buffer_cap_rejects() {
    let decision = evaluate_request_body_ingress(
        RequestBodyGuardrailConfig {
            idle_timeout: TimeSpan::from_secs(5),
            total_timeout: TimeSpan::from_secs(30),
            max_body_bytes: usize::MAX,
            max_buffered_bytes: 10,
        },
        RequestBodyGuardrailInput {
            elapsed: TimeSpan::zero(),
            idle_for: TimeSpan::zero(),
            bytes_received: usize::MAX,
            buffered_bytes: 6,
            next_chunk_bytes: 5,
            declared_content_length: Some(11),
            exempt_from_body_size_cap: false,
        },
    );
    // The received byte count saturates at the size cap, which does not exceed it.
    assert_eq!(decision, RequestBodyGuardrailDecision::Reject { kind: BodyLimitKind::BufferedBodyCap });
}

#[test]
fn time_span_units() {
    assert_eq!(TimeSpan::from_millis(1500).as_millis(), 1500);
    assert_eq!(TimeSpan::from_secs(2).nanos, 2_000_000_000);
}
