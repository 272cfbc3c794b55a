//! The answers of request admission: challenges, rate limiting and
//! overload shedding.
use vstd::prelude::*;

verus! {

/// The authentication scheme that a refused request is challenged with.
#[derive(Debug, Clone, Copy, PartialEq, Eq, Structural)]
pub enum AuthChallengeKind {
    ApiKey,
    Bearer,
}

impl AuthChallengeKind {
    /// The scheme as the `WWW-Authenticate` header names it.
    pub fn as_www_authenticate(self) -> (s: &'static str)
        ensures
            self == AuthChallengeKind::ApiKey ==> s@ == "ApiKey"@,
            self == AuthChallengeKind::Bearer ==> s@ == "Bearer"@,
    {
        match self {
            AuthChallengeKind::ApiKey => "ApiKey",
            AuthChallengeKind::Bearer => "Bearer",
        }
    }
}

#[derive(Debug, Clone, PartialEq, Eq)]
pub struct UnauthorizedDecision {
    pub challenge: AuthChallengeKind,
    pub status: u16,
    pub body: &'static [u8],
}

#[derive(Debug, Clone, PartialEq, Eq)]
pub struct RateLimitedDecision {
    pub status: u16,
    pub body: &'static [u8],
    pub retry_after_seconds: u32,
}

/// Which limit shed an overloaded request.
#[derive(Debug, Clone, Copy, PartialEq, Eq, Structural)]
pub enum OverloadDecisionReason {
    Brownout,
    AdaptiveAdmission,
    RouteCap,
    RouteGlobalCap,
    GlobalInflight,
    UpstreamInflight,
}

#[derive(Debug, Clone, PartialEq, Eq)]
pub struct OverloadDecision {
    pub reason: OverloadDecisionReason,
    pub status: u16,
    pub body: &'static [u8],
    pub retry_after_seconds: u32,
}

#[derive(Debug, Clone, PartialEq, Eq)]
pub enum AdmissionPolicyDecision {
    AdmitReady,
    Unauthorized(UnauthorizedDecision),
    RateLimited(RateLimitedDecision),
    Overloaded(OverloadDecision),
}

} // verus!
