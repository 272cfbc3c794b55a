//! What the forwarding of a request reports back: response chunks and the
//! retry and hedging telemetry of the request.
use vstd::prelude::*;

use crate::errors::proxy::ProxyError;
use crate::errors::retry::{HedgeTelemetryReason, RetryPolicyDenialReason, RetryTelemetryReason};

verus! {

/// A chunk of the upstream response being streamed back to the client.
#[derive(Debug)]
pub enum ResponseChunk {
    /// Emit downstream response headers (used when headers are deferred
    /// until body-size validation completes).
    Start { status: u16, headers: Vec<(Vec<u8>, Vec<u8>)> },
    Data(Vec<u8>),
    Trailers { headers: Vec<(Vec<u8>, Vec<u8>)> },
    End,
    Error(ProxyError),
}

/// Retries of one request: how many were attempted, why the last one was,
/// and why retrying was first refused.
#[derive(Debug, Clone, Copy, PartialEq, Eq, Structural)]
pub struct RetryTelemetry {
    pub count: u8,
    pub attempt_reason: Option<RetryTelemetryReason>,
    pub denial_reason: Option<RetryPolicyDenialReason>,
}

impl RetryTelemetry {
    pub fn new() -> (t: Self)
        ensures
            t.count == 0,
            t.attempt_reason is None,
            t.denial_reason is None,
    {
        RetryTelemetry { count: 0, attempt_reason: None, denial_reason: None }
    }

    /// Counts one more attempt (saturating) and remembers its reason.
    pub fn record_attempt(&mut self, reason: RetryTelemetryReason)
        ensures
            final(self).count == (if old(self).count == u8::MAX {
                u8::MAX as int
            } else {
                old(self).count + 1
            }),
            final(self).attempt_reason == Some(reason),
            final(self).denial_reason == old(self).denial_reason,
    {
        self.count = self.count.saturating_add(1);
        self.attempt_reason = Some(reason);
    }

    /// Remembers why retrying was refused, unless a reason is already kept.
    pub fn record_denial(&mut self, denial_reason: Option<RetryPolicyDenialReason>)
        ensures
            final(self).count == old(self).count,
            final(self).attempt_reason == old(self).attempt_reason,
            final(self).denial_reason == (if old(self).denial_reason is None {
                denial_reason
            } else {
                old(self).denial_reason
            }),
    {
        if self.denial_reason.is_none() {
            self.denial_reason = denial_reason;
        }
    }
}

/// Hedging of one request: why a hedge was sent, how the race ended, and
/// how late the primary answer was.
#[derive(Debug, Clone, Copy, PartialEq, Eq, Structural)]
pub struct HedgeTelemetry {
    pub trigger_reason: Option<HedgeTelemetryReason>,
    pub outcome_reason: Option<HedgeTelemetryReason>,
    pub primary_late_ms: u64,
}

impl HedgeTelemetry {
    pub fn new() -> (t: Self)
        ensures
            t.trigger_reason is None,
            t.outcome_reason is None,
            t.primary_late_ms == 0,
    {
        HedgeTelemetry { trigger_reason: None, outcome_reason: None, primary_late_ms: 0 }
    }

    pub fn record_trigger(&mut self, reason: HedgeTelemetryReason)
        ensures
            *final(self) == (HedgeTelemetry { trigger_reason: Some(reason), ..*old(self) }),
    {
        self.trigger_reason = Some(reason);
    }

    pub fn record_outcome(&mut self, reason: HedgeTelemetryReason)
        ensures
            *final(self) == (HedgeTelemetry { outcome_reason: Some(reason), ..*old(self) }),
    {
        self.outcome_reason = Some(reason);
    }

    pub fn observe_primary_late_ms(&mut self, late_ms: u64)
        ensures
            *final(self) == (HedgeTelemetry { primary_late_ms: late_ms, ..*old(self) }),
    {
        self.primary_late_ms = late_ms;
    }
}

/// The telemetry of one forwarded request.
#[derive(Debug, Clone, Copy, PartialEq, Eq, Structural)]
pub struct ForwardingPolicyTelemetry {
    pub hedge: HedgeTelemetry,
    pub retry: RetryTelemetry,
}


impl Default for RetryTelemetry {
    fn default() -> (t: Self)
        ensures
            t.count == 0,
            t.attempt_reason is None,
            t.denial_reason is None,
    {
        RetryTelemetry::new()
    }
}

impl Default for HedgeTelemetry {
    fn default() -> (t: Self)
        ensures
            t.trigger_reason is None,
            t.outcome_reason is None,
            t.primary_late_ms == 0,
    {
        HedgeTelemetry::new()
    }
}

impl Default for ForwardingPolicyTelemetry {
    fn default() -> (t: Self)
        ensures
            t.hedge.trigger_reason is None,
            t.hedge.outcome_reason is None,
            t.hedge.primary_late_ms == 0,
            t.retry.count == 0,
            t.retry.attempt_reason is None,
            t.retry.denial_reason is None,
    {
        ForwardingPolicyTelemetry { hedge: HedgeTelemetry::new(), retry: RetryTelemetry::new() }
    }
}

} // verus!
