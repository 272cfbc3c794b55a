//! Request- and response-body guardrails: timeouts, size caps and buffering caps.
use vstd::prelude::*;

use crate::time::TimeSpan;

verus! {

/// Shared limits for request-body ingress handling.
#[derive(Debug, Clone, Copy, PartialEq, Eq, Structural)]
pub struct RequestBodyGuardrailConfig {
    pub idle_timeout: TimeSpan,
    pub total_timeout: TimeSpan,
    pub max_body_bytes: usize,
    pub max_buffered_bytes: usize,
}

/// Point-in-time request-body state evaluated against ingress guardrails.
#[derive(Debug, Clone, Copy, PartialEq, Eq, Structural)]
pub struct RequestBodyGuardrailInput {
    pub elapsed: TimeSpan,
    pub idle_for: TimeSpan,
    pub bytes_received: usize,
    pub buffered_bytes: usize,
    pub next_chunk_bytes: usize,
    pub declared_content_length: Option<usize>,
    pub exempt_from_body_size_cap: bool,
}

/// Shared limits for response-body egress handling.
#[derive(Debug, Clone, Copy, PartialEq, Eq, Structural)]
pub struct ResponseBodyGuardrailConfig {
    pub idle_timeout: TimeSpan,
    pub total_timeout: TimeSpan,
    pub max_body_bytes: usize,
    pub unknown_length_prebuffer_bytes: usize,
    pub chunk_bytes: usize,
}

/// Point-in-time response-body state evaluated against egress guardrails.
#[derive(Debug, Clone, Copy, PartialEq, Eq, Structural)]
pub struct ResponseBodyGuardrailInput {
    pub elapsed: TimeSpan,
    pub idle_for: TimeSpan,
    pub bytes_received: usize,
    pub prebuffered_bytes: usize,
    pub next_chunk_bytes: usize,
    pub declared_content_length: Option<usize>,
    pub headers_emitted: bool,
    pub progressive_emission_allowed: bool,
}

/// Canonical timeout reasons shared by request and response body handling.
#[derive(Debug, Clone, Copy, PartialEq, Eq, Structural)]
pub enum BodyTimeoutKind {
    Idle,
    Total,
}

/// Canonical body-size and buffering rejection reasons.
#[derive(Debug, Clone, Copy, PartialEq, Eq, Structural)]
pub enum BodyLimitKind {
    BodySizeCap,
    BufferedBodyCap,
    UnknownLengthPrebufferCap,
}

/// Policy describing how response body bytes may be emitted downstream.
#[derive(Debug, Clone, Copy, PartialEq, Eq, Structural)]
pub enum ProgressiveEmissionPolicy {
    StreamProgressively,
    PrebufferUntilValidated,
    SuppressBody,
}

/// Canonical decision for request-body ingress guardrails.
#[derive(Debug, Clone, Copy, PartialEq, Eq, Structural)]
pub enum RequestBodyGuardrailDecision {
    Continue,
    Timeout { kind: BodyTimeoutKind },
    Reject { kind: BodyLimitKind },
}

/// Canonical decision for response-body egress guardrails.
#[derive(Debug, Clone, Copy, PartialEq, Eq, Structural)]
pub enum ResponseBodyGuardrailDecision {
    Continue { emission: ProgressiveEmissionPolicy },
    Timeout { kind: BodyTimeoutKind },
    Reject { kind: BodyLimitKind },
}

/// Explicit chunk-emission sizing policy for progressive downstream writes.
#[derive(Debug, Clone, Copy, PartialEq, Eq, Structural)]
pub enum ResponseChunkEmissionPolicy {
    Passthrough,
    FixedSize { max_chunk_bytes: usize },
}

/// The total timeout takes precedence over the idle timeout; each fires once
/// the elapsed (or idle) time reaches its limit.
pub open spec fn spec_request_body_timeouts(
    config: RequestBodyGuardrailConfig,
    input: RequestBodyGuardrailInput,
) -> RequestBodyGuardrailDecision {
    if input.elapsed.nanos >= config.total_timeout.nanos {
        RequestBodyGuardrailDecision::Timeout { kind: BodyTimeoutKind::Total }
    } else if input.idle_for.nanos >= config.idle_timeout.nanos {
        RequestBodyGuardrailDecision::Timeout { kind: BodyTimeoutKind::Idle }
    } else {
        RequestBodyGuardrailDecision::Continue
    }
}

pub open spec fn sat_add(a: usize, b: usize) -> int {
    if a + b > usize::MAX {
        usize::MAX as int
    } else {
        a + b
    }
}

/// Accepting the next chunk must keep the body within the size cap (unless
/// exempt) and the buffered bytes within the buffer cap; byte counts saturate.
pub open spec fn spec_request_body_ingress(
    config: RequestBodyGuardrailConfig,
    input: RequestBodyGuardrailInput,
) -> RequestBodyGuardrailDecision {
    if !input.exempt_from_body_size_cap && sat_add(input.bytes_received, input.next_chunk_bytes)
        > config.max_body_bytes {
        RequestBodyGuardrailDecision::Reject { kind: BodyLimitKind::BodySizeCap }
    } else if sat_add(input.buffered_bytes, input.next_chunk_bytes) > config.max_buffered_bytes {
        RequestBodyGuardrailDecision::Reject {
            kind: if input.declared_content_length is Some {
                BodyLimitKind::BufferedBodyCap
            } else {
                BodyLimitKind::UnknownLengthPrebufferCap
            },
        }
    } else {
        RequestBodyGuardrailDecision::Continue
    }
}

pub fn evaluate_request_body_timeouts(
    config: RequestBodyGuardrailConfig,
    input: RequestBodyGuardrailInput,
) -> (d: RequestBodyGuardrailDecision)
    ensures
        d == spec_request_body_timeouts(config, input),
{
    if input.elapsed.nanos >= config.total_timeout.nanos {
        return RequestBodyGuardrailDecision::Timeout { kind: BodyTimeoutKind::Total };
    }
    if input.idle_for.nanos >= config.idle_timeout.nanos {
        return RequestBodyGuardrailDecision::Timeout { kind: BodyTimeoutKind::Idle };
    }
    RequestBodyGuardrailDecision::Continue
}

pub fn evaluate_request_body_ingress(
    config: RequestBodyGuardrailConfig,
    input: RequestBodyGuardrailInput,
) -> (d: RequestBodyGuardrailDecision)
    ensures
        d == spec_request_body_ingress(config, input),
{
    let next_total = input.bytes_received.saturating_add(input.next_chunk_bytes);
    if !input.exempt_from_body_size_cap && next_total > config.max_body_bytes {
        return RequestBodyGuardrailDecision::Reject { kind: BodyLimitKind::BodySizeCap };
    }
    let next_buffered = input.buffered_bytes.saturating_add(input.next_chunk_bytes);
    if next_buffered > config.max_buffered_bytes {
        let kind = if input.declared_content_length.is_some() {
            BodyLimitKind::BufferedBodyCap
        } else {
            BodyLimitKind::UnknownLengthPrebufferCap
        };
        return RequestBodyGuardrailDecision::Reject { kind };
    }
    RequestBodyGuardrailDecision::Continue
}

/// A chunk that is accepted keeps the buffered bytes within the buffer cap,
/// and, unless the request is exempt, the body within the size cap (for byte
/// counts whose sums do not saturate).
pub proof fn lemma_ingress_continue_respects_caps(
    config: RequestBodyGuardrailConfig,
    input: RequestBodyGuardrailInput,
)
    requires
        input.buffered_bytes + input.next_chunk_bytes <= usize::MAX,
        input.bytes_received + input.next_chunk_bytes <= usize::MAX,
    ensures
        spec_request_body_ingress(config, input) == RequestBodyGuardrailDecision::Continue ==> {
            &&& input.buffered_bytes + input.next_chunk_bytes <= config.max_buffered_bytes
            &&& !input.exempt_from_body_size_cap ==> input.bytes_received + input.next_chunk_bytes
                <= config.max_body_bytes
        },
{
}

} // verus!
