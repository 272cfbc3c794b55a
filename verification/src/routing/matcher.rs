use vstd::prelude::*;
use vstd::string::StringSliceAdditionalSpecFns;

use crate::routing::decision::{
    route_preference_reason, spec_route_preference_reason, RouteDecisionReason, RoutePreference,
};
use crate::routing::route::{HostLookupResult, HostMatchKind, IndexedRoute, RouteCandidate};
use crate::routing::util::{prefix_boundary_matches, spec_prefix_boundary_matches};
use crate::text::{eq_ignore_case, eq_ignore_case_exec, chars_of};

verus! {

/// The preference between the route kept so far (`current`) and a new one
/// (`candidate`): a longer path wins, then a host-specific route, then a
/// method-specific route, then the route configured first.
pub open spec fn spec_compare_route(current: IndexedRoute, candidate: IndexedRoute) -> RoutePreference {
    if candidate.path_len > current.path_len {
        RoutePreference::TakeCandidatePathLen
    } else if candidate.path_len == current.path_len && candidate.host_specific
        && !current.host_specific {
        RoutePreference::TakeCandidateHostSpecific
    } else if candidate.path_len == current.path_len && candidate.host_specific
        == current.host_specific && candidate.method_specific && !current.method_specific {
        RoutePreference::TakeCandidateMethodSpecific
    } else if candidate.path_len == current.path_len && candidate.host_specific
        == current.host_specific && candidate.method_specific == current.method_specific
        && candidate.order < current.order {
        RoutePreference::TakeCandidateLexicalOrder
    } else {
        RoutePreference::KeepCurrent
    }
}

/// `candidate` is strictly preferred over `current`.
pub open spec fn route_beats(candidate: IndexedRoute, current: IndexedRoute) -> bool {
    spec_compare_route(current, candidate) != RoutePreference::KeepCurrent
}

pub open spec fn wildcard_specificity_equal(current: RouteCandidate, candidate: RouteCandidate) -> bool {
    candidate.host_match_kind != HostMatchKind::Wildcard || current.host_match_kind
        != HostMatchKind::Wildcard || candidate.wildcard_suffix_len == current.wildcard_suffix_len
}

/// The preference between two host-lookup candidates: a longer path wins,
/// then a host-specific route, then a more specific host match, then a
/// longer wildcard suffix, then a method-specific route, then configuration order.
pub open spec fn spec_compare_route_candidate(
    current: RouteCandidate,
    candidate: RouteCandidate,
) -> RoutePreference {
    let same_path = candidate.route.path_len == current.route.path_len;
    if candidate.route.path_len > current.route.path_len {
        RoutePreference::TakeCandidatePathLen
    } else if same_path && candidate.route.host_specific && !current.route.host_specific {
        RoutePreference::TakeCandidateHostSpecific
    } else if same_path && candidate.host_match_kind.spec_rank()
        > current.host_match_kind.spec_rank() {
        RoutePreference::TakeCandidateExactHost
    } else if same_path && candidate.host_match_kind == HostMatchKind::Wildcard
        && current.host_match_kind == HostMatchKind::Wildcard && candidate.wildcard_suffix_len
        > current.wildcard_suffix_len {
        RoutePreference::TakeCandidateWildcardSpecificity
    } else if same_path && candidate.host_match_kind == current.host_match_kind
        && wildcard_specificity_equal(current, candidate) && candidate.route.method_specific
        && !current.route.method_specific {
        RoutePreference::TakeCandidateMethodSpecific
    } else if same_path && candidate.host_match_kind == current.host_match_kind
        && wildcard_specificity_equal(current, candidate) && candidate.route.method_specific
        == current.route.method_specific && candidate.route.order < current.route.order {
        RoutePreference::TakeCandidateLexicalOrder
    } else {
        RoutePreference::KeepCurrent
    }
}

/// A candidate whose host specificity agrees with how its host matched.
pub open spec fn candidate_consistent(c: RouteCandidate) -> bool {
    c.route.host_specific == (c.host_match_kind != HostMatchKind::Default)
}

pub open spec fn spec_prefer_route_candidate(
    current: Option<RouteCandidate>,
    candidate: Option<RouteCandidate>,
) -> Option<RouteCandidate> {
    match (current, candidate) {
        (None, None) => None,
        (Some(route), None) => Some(route),
        (None, Some(route)) => Some(route),
        (Some(cur), Some(cand)) => if spec_compare_route_candidate(cur, cand)
            == RoutePreference::KeepCurrent {
            Some(cur)
        } else {
            Some(cand)
        },
    }
}

pub open spec fn or_reason(
    a: Option<RouteDecisionReason>,
    b: Option<RouteDecisionReason>,
) -> Option<RouteDecisionReason> {
    match a {
        Some(r) => Some(r),
        None => b,
    }
}

pub open spec fn spec_prefer_host_lookup_result(
    current: Option<HostLookupResult>,
    candidate: Option<HostLookupResult>,
) -> Option<HostLookupResult> {
    match (current, candidate) {
        (None, None) => None,
        (Some(route), None) => Some(route),
        (None, Some(cand)) => Some(cand),
        (Some(cur), Some(cand)) => {
            let preference = spec_compare_route_candidate(cur.candidate, cand.candidate);
            if preference == RoutePreference::KeepCurrent {
                Some(
                    HostLookupResult {
                        candidate: cur.candidate,
                        decision_reason: or_reason(
                            or_reason(cur.decision_reason, cand.decision_reason),
                            spec_route_preference_reason(
                                spec_compare_route_candidate(cand.candidate, cur.candidate),
                            ),
                        ),
                    },
                )
            } else {
                Some(
                    HostLookupResult {
                        candidate: cand.candidate,
                        decision_reason: or_reason(
                            cand.decision_reason,
                            spec_route_preference_reason(preference),
                        ),
                    },
                )
            }
        },
    }
}

pub fn compare_route(current: IndexedRoute, candidate: IndexedRoute) -> (p: RoutePreference)
    ensures
        p == spec_compare_route(current, candidate),
{
    if candidate.path_len > current.path_len {
        RoutePreference::TakeCandidatePathLen
    } else if candidate.path_len == current.path_len && candidate.host_specific
        && !current.host_specific {
        RoutePreference::TakeCandidateHostSpecific
    } else if candidate.path_len == current.path_len && candidate.host_specific
        == current.host_specific && candidate.method_specific && !current.method_specific {
        RoutePreference::TakeCandidateMethodSpecific
    } else if candidate.path_len == current.path_len && candidate.host_specific
        == current.host_specific && candidate.method_specific == current.method_specific
        && candidate.order < current.order {
        RoutePreference::TakeCandidateLexicalOrder
    } else {
        RoutePreference::KeepCurrent
    }
}

pub fn compare_route_candidate(current: RouteCandidate, candidate: RouteCandidate) -> (p:
    RoutePreference)
    ensures
        p == spec_compare_route_candidate(current, candidate),
{
    let wildcard_specificity_equal = candidate.host_match_kind != HostMatchKind::Wildcard
        || current.host_match_kind != HostMatchKind::Wildcard || candidate.wildcard_suffix_len
        == current.wildcard_suffix_len;
    let same_path = candidate.route.path_len == current.route.path_len;

    if candidate.route.path_len > current.route.path_len {
        RoutePreference::TakeCandidatePathLen
    } else if same_path && candidate.route.host_specific && !current.route.host_specific {
        RoutePreference::TakeCandidateHostSpecific
    } else if same_path && candidate.host_match_kind.rank() > current.host_match_kind.rank() {
        RoutePreference::TakeCandidateExactHost
    } else if same_path && candidate.host_match_kind == HostMatchKind::Wildcard
        && current.host_match_kind == HostMatchKind::Wildcard && candidate.wildcard_suffix_len
        > current.wildcard_suffix_len {
        RoutePreference::TakeCandidateWildcardSpecificity
    } else if same_path && candidate.host_match_kind == current.host_match_kind
        && wildcard_specificity_equal && candidate.route.method_specific
        && !current.route.method_specific {
        RoutePreference::TakeCandidateMethodSpecific
    } else if same_path && candidate.host_match_kind == current.host_match_kind
        && wildcard_specificity_equal && candidate.route.method_specific
        == current.route.method_specific && candidate.route.order < current.route.order {
        RoutePreference::TakeCandidateLexicalOrder
    } else {
        RoutePreference::KeepCurrent
    }
}

pub fn prefer_route_candidate(
    current: Option<RouteCandidate>,
    candidate: Option<RouteCandidate>,
) -> (r: Option<RouteCandidate>)
    ensures
        r == spec_prefer_route_candidate(current, candidate),
{
    match (current, candidate) {
        (None, None) => None,
        (Some(route), None) => Some(route),
        (None, Some(route)) => Some(route),
        (Some(cur), Some(cand)) => match compare_route_candidate(cur, cand) {
            RoutePreference::KeepCurrent => Some(cur),
            _ => Some(cand),
        },
    }
}

pub fn prefer_host_lookup_result(
    current: Option<HostLookupResult>,
    candidate: Option<HostLookupResult>,
) -> (r: Option<HostLookupResult>)
    ensures
        r == spec_prefer_host_lookup_result(current, candidate),
{
    match (current, candidate) {
        (None, None) => None,
        (Some(route), None) => Some(route),
        (None, Some(cand)) => Some(cand),
        (Some(cur), Some(cand)) => {
            let preference = compare_route_candidate(cur.candidate, cand.candidate);
            match preference {
                RoutePreference::KeepCurrent => {
                    let decision_reason = match cur.decision_reason {
                        Some(r) => Some(r),
                        None => match cand.decision_reason {
                            Some(r) => Some(r),
                            None => route_preference_reason(
                                compare_route_candidate(cand.candidate, cur.candidate),
                            ),
                        },
                    };
                    Some(HostLookupResult { candidate: cur.candidate, decision_reason })
                },
                _ => {
                    let decision_reason = match cand.decision_reason {
                        Some(r) => Some(r),
                        None => route_preference_reason(preference),
                    };
                    Some(HostLookupResult { candidate: cand.candidate, decision_reason })
                },
            }
        },
    }
}

/// Whether a route's upstream accepts the request method: with no method, or
/// no method configured for the upstream, every route does; otherwise the
/// configured method must equal the request method, ignoring ASCII case.
pub open spec fn spec_route_matches_method(
    route: IndexedRoute,
    method: Option<Seq<char>>,
    upstream_methods: Seq<Option<String>>,
) -> bool {
    match method {
        None => true,
        Some(m) => if route.upstream_idx < upstream_methods.len()
            && upstream_methods[route.upstream_idx as int] is Some {
            eq_ignore_case(upstream_methods[route.upstream_idx as int]->0@, m)
        } else {
            true
        },
    }
}

pub open spec fn method_view(method: Option<&str>) -> Option<Seq<char>> {
    match method {
        Some(m) => Some(m@),
        None => None,
    }
}

pub fn route_matches_method(
    route: IndexedRoute,
    method: Option<&str>,
    upstream_methods: &[Option<String>],
) -> (b: bool)
    ensures
        b == spec_route_matches_method(route, method_view(method), upstream_methods@),
{
    let m = match method {
        None => {
            return true;
        },
        Some(m) => m,
    };
    if route.upstream_idx >= upstream_methods.len() {
        return true;
    }
    match &upstream_methods[route.upstream_idx] {
        Some(expected) => {
            let e = chars_of(expected.as_str());
            let mc = chars_of(m);
            eq_ignore_case_exec(e.as_slice(), mc.as_slice())
        },
        None => true,
    }
}

/// A route is eligible for a request when its prefix ends at a path segment
/// boundary and its upstream accepts the request method.
pub open spec fn route_eligible(
    route: IndexedRoute,
    path: Seq<u8>,
    method: Option<Seq<char>>,
    upstream_methods: Seq<Option<String>>,
) -> bool {
    spec_prefix_boundary_matches(path, route.path_len as int) && spec_route_matches_method(
        route,
        method,
        upstream_methods,
    )
}

/// One step of route selection: an eligible route replaces the best so far
/// when it is preferred, and the reason records which tie-break decided.
pub open spec fn best_step(
    best: Option<(IndexedRoute, Option<RouteDecisionReason>)>,
    route: IndexedRoute,
    eligible: bool,
) -> Option<(IndexedRoute, Option<RouteDecisionReason>)> {
    if !eligible {
        best
    } else {
        match best {
            None => Some((route, None)),
            Some((cur, reason)) => {
                let preference = spec_compare_route(cur, route);
                if preference == RoutePreference::KeepCurrent {
                    Some((cur, or_reason(reason, spec_route_preference_reason(spec_compare_route(route, cur)))))
                } else {
                    Some((route, spec_route_preference_reason(preference)))
                }
            },
        }
    }
}

/// Route selection over `routes`, in order, starting from `current`.
pub open spec fn spec_best_route(
    routes: Seq<IndexedRoute>,
    path: Seq<u8>,
    method: Option<Seq<char>>,
    upstream_methods: Seq<Option<String>>,
    current: Option<(IndexedRoute, Option<RouteDecisionReason>)>,
) -> Option<(IndexedRoute, Option<RouteDecisionReason>)>
    decreases routes.len(),
{
    if routes.len() == 0 {
        current
    } else {
        best_step(
            spec_best_route(routes.drop_last(), path, method, upstream_methods, current),
            routes.last(),
            route_eligible(routes.last(), path, method, upstream_methods),
        )
    }
}

pub fn best_matching_route_with_reason(
    routes: &[IndexedRoute],
    path: &str,
    method: Option<&str>,
    upstream_methods: &[Option<String>],
    current: Option<(IndexedRoute, Option<RouteDecisionReason>)>,
) -> (r: Option<(IndexedRoute, Option<RouteDecisionReason>)>)
    ensures
        r == spec_best_route(
            routes@,
            path.spec_bytes(),
            method_view(method),
            upstream_methods@,
            current,
        ),
{
    let mut best = current;
    let mut i: usize = 0;
    while i < routes.len()
        invariant
            0 <= i <= routes.len(),
            best == spec_best_route(
                routes@.take(i as int),
                path.spec_bytes(),
                method_view(method),
                upstream_methods@,
                current,
            ),
        decreases routes.len() - i,
    {
        let route = routes[i];
        proof {
            assert(routes@.take(i + 1).drop_last() =~= routes@.take(i as int));
            assert(routes@.take(i + 1).last() == route);
        }
        let eligible = prefix_boundary_matches(path, route.path_len) && route_matches_method(
            route,
            method,
            upstream_methods,
        );
        if eligible {
            best = match best {
                None => Some((route, None)),
                Some((current_route, current_reason)) => match compare_route(current_route, route) {
                    RoutePreference::KeepCurrent => {
                        let reason = match current_reason {
                            Some(r) => Some(r),
                            None => route_preference_reason(compare_route(route, current_route)),
                        };
                        Some((current_route, reason))
                    },
                    preference => Some((route, route_preference_reason(preference))),
                },
            };
        }
        i += 1;
    }
    proof {
        assert(routes@.take(routes.len() as int) =~= routes@);
    }
    best
}

/// Preference between routes is transitive.
pub proof fn lemma_route_beats_transitive(a: IndexedRoute, b: IndexedRoute, c: IndexedRoute)
    requires
        route_beats(a, b),
        route_beats(b, c),
    ensures
        route_beats(a, c),
{
}

/// Preference between routes is asymmetric: when a route beats another, the
/// other does not beat it.
pub proof fn lemma_route_beats_asymmetric(a: IndexedRoute, b: IndexedRoute)
    requires
        route_beats(a, b),
    ensures
        !route_beats(b, a),
{
}

/// The selected route is one of the eligible routes or the starting route,
/// and no eligible route, nor the starting route, is preferred over it.
pub proof fn lemma_best_route_is_maximal(
    routes: Seq<IndexedRoute>,
    path: Seq<u8>,
    method: Option<Seq<char>>,
    upstream_methods: Seq<Option<String>>,
    current: Option<(IndexedRoute, Option<RouteDecisionReason>)>,
)
    ensures
        ({
            let r = spec_best_route(routes, path, method, upstream_methods, current);
            &&& (r is None <==> (current is None && forall|i: int|
                0 <= i < routes.len() ==> !route_eligible(
                    #[trigger] routes[i],
                    path,
                    method,
                    upstream_methods,
                )))
            &&& r matches Some((best, _)) ==> {
                &&& (current matches Some((c, _)) ==> !route_beats(c, best))
                &&& forall|i: int|
                    0 <= i < routes.len() && route_eligible(
                        #[trigger] routes[i],
                        path,
                        method,
                        upstream_methods,
                    ) ==> !route_beats(routes[i], best)
                &&& ((current matches Some((c, _)) && best == c) || exists|i: int|
                    0 <= i < routes.len() && #[trigger] routes[i] == best && route_eligible(
                        routes[i],
                        path,
                        method,
                        upstream_methods,
                    ))
            }
        }),
    decreases routes.len(),
{
    if routes.len() > 0 {
        let prev = routes.drop_last();
        lemma_best_route_is_maximal(prev, path, method, upstream_methods, current);
        let last = routes.last();
        let pr = spec_best_route(prev, path, method, upstream_methods, current);
        let r = spec_best_route(routes, path, method, upstream_methods, current);
        assert forall|i: int| 0 <= i < prev.len() implies #[trigger] prev[i] == routes[i] by {}
        if let Some((best, _)) = r {
            if let Some((pbest, _)) = pr {
                if route_eligible(last, path, method, upstream_methods) && route_beats(last, pbest) {
                    assert(best == last);
                    assert forall|i: int|
                        0 <= i < routes.len() && route_eligible(
                            #[trigger] routes[i],
                            path,
                            method,
                            upstream_methods,
                        ) implies !route_beats(routes[i], best) by {
                        if i < prev.len() {
                            assert(prev[i] == routes[i]);
                            if route_beats(routes[i], best) {
                                lemma_route_beats_transitive(routes[i], best, pbest);
                            }
                        } else {
                            assert(routes[i] == last);
                        }
                    }
                    if let Some((c, _)) = current {
                        if route_beats(c, best) {
                            lemma_route_beats_transitive(c, best, pbest);
                        }
                    }
                    assert(routes[routes.len() - 1] == best);
                } else {
                    assert(best == pbest);
                    assert forall|i: int|
                        0 <= i < routes.len() && route_eligible(
                            #[trigger] routes[i],
                            path,
                            method,
                            upstream_methods,
                        ) implies !route_beats(routes[i], best) by {
                        if i < prev.len() {
                            assert(prev[i] == routes[i]);
                        }
                    }
                    if !((current matches Some((c, _)) && best == c)) {
                        let j = choose|j: int|
                            0 <= j < prev.len() && #[trigger] prev[j] == pbest && route_eligible(
                                prev[j],
                                path,
                                method,
                                upstream_methods,
                            );
                        assert(routes[j] == best);
                    }
                }
            } else {
                assert(best == last);
                assert(routes[routes.len() - 1] == best);
                assert forall|i: int|
                    0 <= i < routes.len() && route_eligible(
                        #[trigger] routes[i],
                        path,
                        method,
                        upstream_methods,
                    ) implies !route_beats(routes[i], best) by {
                    if i < prev.len() {
                        assert(prev[i] == routes[i]);
                    }
                }
            }
        } else {
            assert forall|i: int| 0 <= i < routes.len() implies !route_eligible(
                #[trigger] routes[i],
                path,
                method,
                upstream_methods,
            ) by {
                if i < prev.len() {
                    assert(prev[i] == routes[i]);
                }
            }
        }
    }
}

/// For candidates whose host specificity agrees with their host match,
/// preference is asymmetric: when the candidate is taken over the current
/// route, the current route would not be taken over the candidate.
pub proof fn lemma_compare_route_candidate_asymmetric(a: RouteCandidate, b: RouteCandidate)
    requires
        candidate_consistent(a),
        candidate_consistent(b),
        spec_compare_route_candidate(a, b) != RoutePreference::KeepCurrent,
    ensures
        spec_compare_route_candidate(b, a) == RoutePreference::KeepCurrent,
{
}

/// A candidate never beats itself.
pub proof fn lemma_compare_route_candidate_irreflexive(a: RouteCandidate)
    ensures
        spec_compare_route_candidate(a, a) == RoutePreference::KeepCurrent,
{
}

/// The preferred candidate is one of the two inputs, and when both are given
/// it is the one the comparison prefers.
pub proof fn lemma_prefer_route_candidate_picks_input(
    current: Option<RouteCandidate>,
    candidate: Option<RouteCandidate>,
)
    ensures
        ({
            let r = spec_prefer_route_candidate(current, candidate);
            &&& (r is None <==> (current is None && candidate is None))
            &&& (r is Some ==> (r == current || r == candidate))
            &&& (current is Some && candidate is Some) ==> (r == candidate <==> (
            spec_compare_route_candidate(current->0, candidate->0) != RoutePreference::KeepCurrent
                || current == candidate))
        }),
{
}

/// How one route is preferred over another, by their fields alone: a
/// longer path wins; on equal paths a host-specific route wins over one
/// that is not; then, with the same host specificity, a method-specific
/// route; then, with the same method specificity, the route configured
/// first. Each win records its own tie-break reason, and in no other case
/// does `a` win.
pub proof fn lemma_route_preference_by_fields(a: IndexedRoute, b: IndexedRoute)
    ensures
        a.path_len > b.path_len ==> route_beats(a, b) && spec_route_preference_reason(
            spec_compare_route(b, a),
        ) == Some(RouteDecisionReason::HostPathLongerOrEqual),
        a.path_len == b.path_len && a.host_specific && !b.host_specific ==> route_beats(a, b)
            && spec_route_preference_reason(spec_compare_route(b, a)) == Some(
            RouteDecisionReason::HostSpecificTieBreak,
        ),
        a.path_len == b.path_len && a.host_specific == b.host_specific && a.method_specific
            && !b.method_specific ==> route_beats(a, b) && spec_route_preference_reason(
            spec_compare_route(b, a),
        ) == Some(RouteDecisionReason::MethodSpecificTieBreak),
        a.path_len == b.path_len && a.host_specific == b.host_specific && a.method_specific
            == b.method_specific && a.order < b.order ==> route_beats(a, b)
            && spec_route_preference_reason(spec_compare_route(b, a)) == Some(
            RouteDecisionReason::LexicalTieBreak,
        ),
        route_beats(a, b) ==> a.path_len > b.path_len || (a.path_len == b.path_len && (
        (a.host_specific && !b.host_specific) || (a.host_specific == b.host_specific && (
        (a.method_specific && !b.method_specific) || (a.method_specific == b.method_specific
            && a.order < b.order))))),
{
}

/// The route selected for a request has the longest path among the
/// eligible routes (and the starting route), and among those of that
/// length it is host-specific whenever any of them is.
pub proof fn lemma_best_route_fields(
    routes: Seq<IndexedRoute>,
    path: Seq<u8>,
    method: Option<Seq<char>>,
    upstream_methods: Seq<Option<String>>,
    current: Option<(IndexedRoute, Option<RouteDecisionReason>)>,
)
    ensures
        spec_best_route(routes, path, method, upstream_methods, current) matches Some((best, _))
            ==> {
            &&& forall|i: int|
                0 <= i < routes.len() && route_eligible(
                    #[trigger] routes[i],
                    path,
                    method,
                    upstream_methods,
                ) ==> routes[i].path_len <= best.path_len && (routes[i].path_len == best.path_len
                    && routes[i].host_specific ==> best.host_specific)
            &&& current matches Some((c, _)) ==> c.path_len <= best.path_len && (c.path_len
                == best.path_len && c.host_specific ==> best.host_specific)
        },
{
    lemma_best_route_is_maximal(routes, path, method, upstream_methods, current);
    if let Some((best, _)) = spec_best_route(routes, path, method, upstream_methods, current) {
        assert forall|i: int|
            0 <= i < routes.len() && route_eligible(
                #[trigger] routes[i],
                path,
                method,
                upstream_methods,
            ) implies routes[i].path_len <= best.path_len && (routes[i].path_len == best.path_len
            && routes[i].host_specific ==> best.host_specific) by {
            lemma_route_preference_by_fields(routes[i], best);
        }
        if let Some((c, _)) = current {
            lemma_route_preference_by_fields(c, best);
        }
    }
}

/// `candidate` is strictly preferred over `current` among host-lookup
/// candidates.
pub open spec fn candidate_beats(candidate: RouteCandidate, current: RouteCandidate) -> bool {
    spec_compare_route_candidate(current, candidate) != RoutePreference::KeepCurrent
}

/// How one host-lookup candidate is preferred over another, by their fields
/// alone: a longer path wins; on equal paths a host-specific route wins;
/// then an exact host match over a wildcard over the default; then, between
/// wildcards, the longer suffix; then a method-specific route; then the
/// route configured first. A candidate that is not host-specific never
/// beats one of the same path length that is (when each candidate's host
/// specificity agrees with how its host matched), nor does a candidate beat
/// its equal.
pub proof fn lemma_candidate_preference_by_fields(a: RouteCandidate, b: RouteCandidate)
    ensures
        a.route.path_len > b.route.path_len ==> candidate_beats(a, b),
        a.route.path_len == b.route.path_len && a.route.host_specific && !b.route.host_specific
            ==> candidate_beats(a, b) && spec_route_preference_reason(
            spec_compare_route_candidate(b, a),
        ) == Some(RouteDecisionReason::HostSpecificTieBreak),
        a.route.path_len == b.route.path_len && a.route.host_specific == b.route.host_specific && (
        (a.host_match_kind == HostMatchKind::Exact && b.host_match_kind != HostMatchKind::Exact) || (
        a.host_match_kind == HostMatchKind::Wildcard && b.host_match_kind == HostMatchKind::Default))
            ==> candidate_beats(a, b) && spec_route_preference_reason(
            spec_compare_route_candidate(b, a),
        ) == Some(RouteDecisionReason::ExactHostTieBreak),
        a.route.path_len == b.route.path_len && a.route.host_specific == b.route.host_specific
            && a.host_match_kind == HostMatchKind::Wildcard && b.host_match_kind
            == HostMatchKind::Wildcard && a.wildcard_suffix_len > b.wildcard_suffix_len
            ==> candidate_beats(a, b),
        candidate_beats(a, b) ==> a.route.path_len >= b.route.path_len,
        candidate_consistent(a) && candidate_consistent(b) && a.route.path_len
            == b.route.path_len && !a.route.host_specific && b.route.host_specific ==> !candidate_beats(a, b),
        a.route == b.route && a.host_match_kind == b.host_match_kind && a.wildcard_suffix_len
            == b.wildcard_suffix_len ==> !candidate_beats(a, b),
{
}

} // verus!
