use vstd::prelude::*;

use crate::errors::proxy::{PoolError, ProxyError};
use crate::text::{chars_of, eq_ignore_case, eq_ignore_case_str};

verus! {

#[derive(Clone, Copy, Debug, PartialEq, Eq, Structural)]
pub enum UpstreamRetryReason {
    Timeout,
    Transport,
    Pool,
}

#[derive(Clone, Copy, Debug, PartialEq, Eq, Structural)]
pub enum UpstreamTerminalErrorKind {
    PoolSend,
    Tls,
    Protocol,
    Bridge,
}

#[derive(Clone, Copy, Debug, PartialEq, Eq, Structural)]
pub enum UpstreamRetryability {
    Retryable(UpstreamRetryReason),
    Terminal(UpstreamTerminalErrorKind),
}

#[derive(Clone, Copy, Debug, PartialEq, Eq, Structural)]
pub enum RetryPolicyDenialReason {
    TerminalError(UpstreamTerminalErrorKind),
    MethodNotIdempotent,
    RequestBodyNotReplayable,
    AttemptLimitReached,
    BudgetDenied,
    NoAlternateBackend,
    AlternateBackendUnhealthy,
}

/// What is known about a failed upstream attempt when deciding whether to retry it.
#[derive(Clone, Copy, Debug, PartialEq, Eq, Structural)]
pub struct RetryPolicyFacts {
    pub retryability: UpstreamRetryability,
    pub method_idempotent: bool,
    pub request_body_replayable: bool,
    pub attempt_count: u8,
    pub max_attempts: u8,
    pub budget_available: bool,
    pub alternate_backend_available: bool,
    pub alternate_backend_healthy: bool,
}

#[derive(Clone, Copy, Debug, PartialEq, Eq, Structural)]
pub enum RetryPolicyDecision {
    Retry { reason: UpstreamRetryReason },
    DoNotRetry { denial: Option<RetryPolicyDenialReason> },
}

#[derive(Clone, Copy, Debug, PartialEq, Eq, Structural)]
pub enum RetryTelemetryReason {
    Timeout,
    Transport,
    Pool,
}

impl RetryTelemetryReason {
    /// The telemetry reason that names a retry reason.
    pub fn from_retry_reason(value: UpstreamRetryReason) -> (r: Self)
        ensures
            r == (match value {
                UpstreamRetryReason::Timeout => RetryTelemetryReason::Timeout,
                UpstreamRetryReason::Transport => RetryTelemetryReason::Transport,
                UpstreamRetryReason::Pool => RetryTelemetryReason::Pool,
            }),
    {
        match value {
            UpstreamRetryReason::Timeout => RetryTelemetryReason::Timeout,
            UpstreamRetryReason::Transport => RetryTelemetryReason::Transport,
            UpstreamRetryReason::Pool => RetryTelemetryReason::Pool,
        }
    }
}

#[derive(Clone, Copy, Debug, PartialEq, Eq, Structural)]
pub struct HedgePolicyFacts {
    pub hedging_configured: bool,
    pub bodyless_mode: bool,
    pub tunnel_allowed: bool,
    pub method_allowed: bool,
    pub alternate_backend_available: bool,
    pub budget_available: bool,
}

#[derive(Clone, Copy, Debug, PartialEq, Eq, Structural)]
pub enum HedgePolicyDenialReason {
    HedgingDisabled,
    NotBodylessMode,
    TunnelRequest,
    MethodNotAllowed,
    NoAlternateBackend,
    BudgetDenied,
}

#[derive(Clone, Copy, Debug, PartialEq, Eq, Structural)]
pub enum HedgePolicyDecision {
    Hedge,
    DoNotHedge { denial: HedgePolicyDenialReason },
}

#[derive(Clone, Copy, Debug, PartialEq, Eq, Structural)]
pub enum HedgeTelemetryReason {
    DelayElapsed,
    PrimaryWonAfterTrigger,
    HedgeWon,
    HedgeWasted,
}

#[derive(Clone, Debug, PartialEq, Eq)]
pub struct AlternateBackendChoice<Backend> {
    pub backend: Backend,
    pub index: usize,
}

#[derive(Clone, Copy, Debug, PartialEq, Eq, Structural)]
pub struct AlternateBackendPolicyFacts {
    pub candidate_available: bool,
    pub excluded_primary_backend: bool,
}

#[derive(Clone, Copy, Debug, PartialEq, Eq, Structural)]
pub enum AlternateBackendDenialReason {
    NoCandidateAvailable,
    PrimaryBackendNotExcluded,
}

#[derive(Clone, Debug, PartialEq, Eq)]
pub enum AlternateBackendDecision<Backend> {
    Select(AlternateBackendChoice<Backend>),
    DoNotSelect { denial: AlternateBackendDenialReason },
}

/// GET, HEAD, PUT, DELETE, OPTIONS and TRACE, in any ASCII case.
pub open spec fn spec_is_idempotent_method(method: Seq<char>) -> bool {
    ||| eq_ignore_case(method, "GET"@)
    ||| eq_ignore_case(method, "HEAD"@)
    ||| eq_ignore_case(method, "PUT"@)
    ||| eq_ignore_case(method, "DELETE"@)
    ||| eq_ignore_case(method, "OPTIONS"@)
    ||| eq_ignore_case(method, "TRACE"@)
}

pub fn is_idempotent_method(method: &str) -> (b: bool)
    ensures
        b == spec_is_idempotent_method(method@),
{
    let m = chars_of(method);
    let m = m.as_slice();
    eq_ignore_case_str(m, "GET") || eq_ignore_case_str(m, "HEAD") || eq_ignore_case_str(m, "PUT")
        || eq_ignore_case_str(m, "DELETE") || eq_ignore_case_str(m, "OPTIONS")
        || eq_ignore_case_str(m, "TRACE")
}

/// Transport failures, timeouts and pool failures other than a failed send
/// may be retried; the other failures are terminal.
pub open spec fn spec_classify_retryability(err: ProxyError) -> UpstreamRetryability {
    match err {
        ProxyError::Transport(_) => UpstreamRetryability::Retryable(UpstreamRetryReason::Transport),
        ProxyError::Timeout => UpstreamRetryability::Retryable(UpstreamRetryReason::Timeout),
        ProxyError::Pool(PoolError::Send(_)) => UpstreamRetryability::Terminal(
            UpstreamTerminalErrorKind::PoolSend,
        ),
        ProxyError::Pool(_) => UpstreamRetryability::Retryable(UpstreamRetryReason::Pool),
        ProxyError::Tls(_) => UpstreamRetryability::Terminal(UpstreamTerminalErrorKind::Tls),
        ProxyError::Protocol(_) => UpstreamRetryability::Terminal(UpstreamTerminalErrorKind::Protocol),
        ProxyError::Bridge(_) => UpstreamRetryability::Terminal(UpstreamTerminalErrorKind::Bridge),
    }
}

pub fn classify_retryability(err: &ProxyError) -> (r: UpstreamRetryability)
    ensures
        r == spec_classify_retryability(*err),
{
    match err {
        ProxyError::Transport(_) => UpstreamRetryability::Retryable(UpstreamRetryReason::Transport),
        ProxyError::Timeout => UpstreamRetryability::Retryable(UpstreamRetryReason::Timeout),
        ProxyError::Pool(PoolError::Send(_)) => UpstreamRetryability::Terminal(
            UpstreamTerminalErrorKind::PoolSend,
        ),
        ProxyError::Pool(_) => UpstreamRetryability::Retryable(UpstreamRetryReason::Pool),
        ProxyError::Tls(_) => UpstreamRetryability::Terminal(UpstreamTerminalErrorKind::Tls),
        ProxyError::Protocol(_) => UpstreamRetryability::Terminal(UpstreamTerminalErrorKind::Protocol),
        ProxyError::Bridge(_) => UpstreamRetryability::Terminal(UpstreamTerminalErrorKind::Bridge),
    }
}

/// The retry decision: a terminal error is denied with its kind; otherwise
/// the first failing condition, in the order below, is the denial, and a
/// retry is allowed only when all of them hold.
pub open spec fn spec_evaluate_retry_policy(input: RetryPolicyFacts) -> RetryPolicyDecision {
    match input.retryability {
        UpstreamRetryability::Terminal(kind) => RetryPolicyDecision::DoNotRetry {
            denial: Some(RetryPolicyDenialReason::TerminalError(kind)),
        },
        UpstreamRetryability::Retryable(reason) => if !input.method_idempotent {
            RetryPolicyDecision::DoNotRetry {
                denial: Some(RetryPolicyDenialReason::MethodNotIdempotent),
            }
        } else if !input.request_body_replayable {
            RetryPolicyDecision::DoNotRetry {
                denial: Some(RetryPolicyDenialReason::RequestBodyNotReplayable),
            }
        } else if input.attempt_count >= input.max_attempts {
            RetryPolicyDecision::DoNotRetry {
                denial: Some(RetryPolicyDenialReason::AttemptLimitReached),
            }
        } else if !input.budget_available {
            RetryPolicyDecision::DoNotRetry { denial: Some(RetryPolicyDenialReason::BudgetDenied) }
        } else if !input.alternate_backend_available {
            RetryPolicyDecision::DoNotRetry {
                denial: Some(RetryPolicyDenialReason::NoAlternateBackend),
            }
        } else if !input.alternate_backend_healthy {
            RetryPolicyDecision::DoNotRetry {
                denial: Some(RetryPolicyDenialReason::AlternateBackendUnhealthy),
            }
        } else {
            RetryPolicyDecision::Retry { reason }
        },
    }
}

pub fn evaluate_retry_policy(input: RetryPolicyFacts) -> (d: RetryPolicyDecision)
    ensures
        d == spec_evaluate_retry_policy(input),
        d is Retry <==> (input.retryability is Retryable && input.method_idempotent
            && input.request_body_replayable && input.attempt_count < input.max_attempts
            && input.budget_available && input.alternate_backend_available
            && input.alternate_backend_healthy),
{
    match input.retryability {
        UpstreamRetryability::Terminal(kind) => RetryPolicyDecision::DoNotRetry {
            denial: Some(RetryPolicyDenialReason::TerminalError(kind)),
        },
        UpstreamRetryability::Retryable(reason) => {
            if !input.method_idempotent {
                RetryPolicyDecision::DoNotRetry {
                    denial: Some(RetryPolicyDenialReason::MethodNotIdempotent),
                }
            } else if !input.request_body_replayable {
                RetryPolicyDecision::DoNotRetry {
                    denial: Some(RetryPolicyDenialReason::RequestBodyNotReplayable),
                }
            } else if input.attempt_count >= input.max_attempts {
                RetryPolicyDecision::DoNotRetry {
                    denial: Some(RetryPolicyDenialReason::AttemptLimitReached),
                }
            } else if !input.budget_available {
                RetryPolicyDecision::DoNotRetry {
                    denial: Some(RetryPolicyDenialReason::BudgetDenied),
                }
            } else if !input.alternate_backend_available {
                RetryPolicyDecision::DoNotRetry {
                    denial: Some(RetryPolicyDenialReason::NoAlternateBackend),
                }
            } else if !input.alternate_backend_healthy {
                RetryPolicyDecision::DoNotRetry {
                    denial: Some(RetryPolicyDenialReason::AlternateBackendUnhealthy),
                }
            } else {
                RetryPolicyDecision::Retry { reason }
            }
        },
    }
}

pub fn is_retryable(err: &ProxyError) -> (b: bool)
    ensures
        b == (spec_classify_retryability(*err) is Retryable),
{
    match classify_retryability(err) {
        UpstreamRetryability::Retryable(_) => true,
        UpstreamRetryability::Terminal(_) => false,
    }
}

/// A retry decision keeps the reason under which the error was classified
/// retryable, and a terminal error is never retried.
pub proof fn lemma_retry_keeps_classified_reason(input: RetryPolicyFacts)
    ensures
        spec_evaluate_retry_policy(input) matches RetryPolicyDecision::Retry { reason } ==> input.retryability
            == UpstreamRetryability::Retryable(reason),
        input.retryability is Terminal ==> spec_evaluate_retry_policy(input) is DoNotRetry,
{
}

/// Every refused retry names a reason.
pub proof fn lemma_denial_always_explained(input: RetryPolicyFacts)
    ensures
        spec_evaluate_retry_policy(input) matches RetryPolicyDecision::DoNotRetry { denial } ==> denial is Some,
{
}

} // verus!
