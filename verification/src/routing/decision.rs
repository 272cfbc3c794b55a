use vstd::prelude::*;

verus! {

/// Outcome of comparing the route kept so far with a new candidate.
#[derive(Clone, Copy, Debug, PartialEq, Eq, Structural)]
pub enum RoutePreference {
    KeepCurrent,
    TakeCandidatePathLen,
    TakeCandidateHostSpecific,
    TakeCandidateExactHost,
    TakeCandidateWildcardSpecificity,
    TakeCandidateMethodSpecific,
    TakeCandidateLexicalOrder,
}

/// Why a route won over the others.
#[derive(Clone, Copy, Debug, PartialEq, Eq, Structural)]
pub enum RouteDecisionReason {
    HostTrieNoDefault,
    HostPathLongerOrEqual,
    DefaultPathLonger,
    HostSpecificTieBreak,
    ExactHostTieBreak,
    WildcardSpecificityTieBreak,
    MethodSpecificTieBreak,
    LexicalTieBreak,
}

/// The route that matched a request.
#[derive(Clone, Copy, Debug, PartialEq, Eq)]
pub struct RouteDecision<'a> {
    /// Name of the upstream selected by route matching; auth/policy stays attached to that upstream.
    pub upstream: &'a str,
    pub matched_path_len: usize,
    pub host_specific: bool,
    pub reason: RouteDecisionReason,
}

pub open spec fn spec_route_preference_reason(preference: RoutePreference) -> Option<RouteDecisionReason> {
    match preference {
        RoutePreference::KeepCurrent => None,
        RoutePreference::TakeCandidatePathLen => Some(RouteDecisionReason::HostPathLongerOrEqual),
        RoutePreference::TakeCandidateHostSpecific => Some(RouteDecisionReason::HostSpecificTieBreak),
        RoutePreference::TakeCandidateExactHost => Some(RouteDecisionReason::ExactHostTieBreak),
        RoutePreference::TakeCandidateWildcardSpecificity => Some(
            RouteDecisionReason::WildcardSpecificityTieBreak,
        ),
        RoutePreference::TakeCandidateMethodSpecific => Some(RouteDecisionReason::MethodSpecificTieBreak),
        RoutePreference::TakeCandidateLexicalOrder => Some(RouteDecisionReason::LexicalTieBreak),
    }
}

/// The decision reason recorded when a preference replaces the current route.
pub fn route_preference_reason(preference: RoutePreference) -> (r: Option<RouteDecisionReason>)
    ensures
        r == spec_route_preference_reason(preference),
{
    match preference {
        RoutePreference::KeepCurrent => None,
        RoutePreference::TakeCandidatePathLen => Some(RouteDecisionReason::HostPathLongerOrEqual),
        RoutePreference::TakeCandidateHostSpecific => Some(RouteDecisionReason::HostSpecificTieBreak),
        RoutePreference::TakeCandidateExactHost => Some(RouteDecisionReason::ExactHostTieBreak),
        RoutePreference::TakeCandidateWildcardSpecificity => Some(
            RouteDecisionReason::WildcardSpecificityTieBreak,
        ),
        RoutePreference::TakeCandidateMethodSpecific => Some(RouteDecisionReason::MethodSpecificTieBreak),
        RoutePreference::TakeCandidateLexicalOrder => Some(RouteDecisionReason::LexicalTieBreak),
    }
}

impl RouteDecisionReason {
    /// The lowercase, hyphenated token that names the reason.
    pub open spec fn spec_token(self) -> Seq<char> {
        match self {
            RouteDecisionReason::HostTrieNoDefault => "host-trie-no-default"@,
            RouteDecisionReason::HostPathLongerOrEqual => "host-path-longer-or-equal"@,
            RouteDecisionReason::DefaultPathLonger => "default-path-longer"@,
            RouteDecisionReason::HostSpecificTieBreak => "host-specific-tie-break"@,
            RouteDecisionReason::ExactHostTieBreak => "exact-host-tie-break"@,
            RouteDecisionReason::WildcardSpecificityTieBreak => "wildcard-specificity-tie-break"@,
            RouteDecisionReason::MethodSpecificTieBreak => "method-specific-tie-break"@,
            RouteDecisionReason::LexicalTieBreak => "lexical-tie-break"@,
        }
    }

    /// The token that the reason displays as.
    pub fn as_str(&self) -> (s: &'static str)
        ensures
            s@ == self.spec_token(),
    {
        match self {
            RouteDecisionReason::HostTrieNoDefault => "host-trie-no-default",
            RouteDecisionReason::HostPathLongerOrEqual => "host-path-longer-or-equal",
            RouteDecisionReason::DefaultPathLonger => "default-path-longer",
            RouteDecisionReason::HostSpecificTieBreak => "host-specific-tie-break",
            RouteDecisionReason::ExactHostTieBreak => "exact-host-tie-break",
            RouteDecisionReason::WildcardSpecificityTieBreak => "wildcard-specificity-tie-break",
            RouteDecisionReason::MethodSpecificTieBreak => "method-specific-tie-break",
            RouteDecisionReason::LexicalTieBreak => "lexical-tie-break",
        }
    }

    /// The displayed form of the reason, as an owned string.
    pub fn to_string(&self) -> (s: String)
        ensures
            s@ == self.spec_token(),
    {
        self.as_str().to_owned()
    }
}

} // verus!
