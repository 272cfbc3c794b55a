use vstd::prelude::*;

use crate::routing::decision::RouteDecisionReason;

verus! {

/// A configured route, reduced to what route matching compares.
#[derive(Clone, Copy, Debug, PartialEq, Eq, Structural)]
pub struct IndexedRoute {
    pub upstream_idx: usize,
    pub path_len: usize,
    pub host_specific: bool,
    pub method_specific: bool,
    pub order: usize,
}

/// How a route's host matched the request host; later variants are more specific.
#[derive(Clone, Copy, Debug, PartialEq, Eq, Structural, PartialOrd, Ord)]
pub enum HostMatchKind {
    Default,
    Wildcard,
    Exact,
}

impl HostMatchKind {
    /// Position of the variant in the specificity order.
    pub open spec fn spec_rank(self) -> int {
        match self {
            HostMatchKind::Default => 0,
            HostMatchKind::Wildcard => 1,
            HostMatchKind::Exact => 2,
        }
    }

    pub fn rank(self) -> (r: u8)
        ensures
            r == self.spec_rank(),
    {
        match self {
            HostMatchKind::Default => 0,
            HostMatchKind::Wildcard => 1,
            HostMatchKind::Exact => 2,
        }
    }
}

/// A route together with how its host matched.
#[derive(Clone, Copy, Debug, PartialEq, Eq, Structural)]
pub struct RouteCandidate {
    pub route: IndexedRoute,
    pub host_match_kind: HostMatchKind,
    pub wildcard_suffix_len: usize,
}

/// The best candidate of a host lookup and the reason it won, if any.
#[derive(Clone, Copy, Debug, PartialEq, Eq, Structural)]
pub struct HostLookupResult {
    pub candidate: RouteCandidate,
    pub decision_reason: Option<RouteDecisionReason>,
}

} // verus!
