use spooky::routing::decision::{route_preference_reason, RouteDecisionReason, RoutePreference};
use spooky::routing::host::{
    host_has_uppercase_ascii, normalize_host_for_routing, parse_configured_host_pattern,
    parse_configured_host_pattern_ref,
    ConfiguredHostPattern, ConfiguredHostPatternRef,
};
use spooky::routing::matcher::{
    best_matching_route_with_reason, compare_route_candidate, prefer_host_lookup_result,
    prefer_route_candidate,
};
use spooky::routing::route::{HostLookupResult, HostMatchKind, IndexedRoute, RouteCandidate};
use spooky::routing::util::prefix_boundary_matches;

fn indexed_route(
    upstream_idx: usize,
    path_len: usize,
    host_specific: bool,
    method_specific: bool,
    order: usize,
) -> IndexedRoute {
    IndexedRoute { upstream_idx, path_len, host_specific, method_specific, order }
}

fn candidate(
    upstream_idx: usize,
    path_len: usize,
    host_specific: bool,
    host_match_kind: HostMatchKind,
    wildcard_suffix_len: usize,
    method_specific: bool,
    order: usize,
) -> RouteCandidate {
    RouteCandidate {
        route: indexed_route(upstream_idx, path_len, host_specific, method_specific, order),
        host_match_kind,
        wildcard_suffix_len,
    }
}

#[test]
fn prefix_boundary_matches_exact_prefix_length() {
    assert!(prefix_boundary_matches("/api", "/api".len()));
}

#[test]
fn prefix_boundary_matches_segment_boundary() {
    assert!(prefix_boundary_matches("/api/v1", "/api".len()));
}

#[test]
fn prefix_boundary_rejects_mid_segment_match() {
    assert!(!prefix_boundary_matches("/apixyz", "/api".len()));
}

#[test]
fn prefix_boundary_treats_root_prefix_as_match() {
    assert!(prefix_boundary_matches("/anything", 1));
}

#[test]
fn prefix_boundary_rejects_prefix_longer_than_path() {
    assert!(!prefix_boundary_matches("/ap", 4));
}

#[test]
fn route_preference_reason_maps_each_preference() {
    assert_eq!(route_preference_reason(RoutePreference::KeepCurrent), None);
    assert_eq!(
        route_preference_reason(RoutePreference::TakeCandidatePathLen),
        Some(RouteDecisionReason::HostPathLongerOrEqual)
    );
    assert_eq!(
        route_preference_reason(RoutePreference::TakeCandidateHostSpecific),
        Some(RouteDecisionReason::HostSpecificTieBreak)
    );
    assert_eq!(
        route_preference_reason(RoutePreference::TakeCandidateExactHost),
        Some(RouteDecisionReason::ExactHostTieBreak)
    );
    assert_eq!(
        route_preference_reason(RoutePreference::TakeCandidateWildcardSpecificity),
        Some(RouteDecisionReason::WildcardSpecificityTieBreak)
    );
    assert_eq!(
        route_preference_reason(RoutePreference::TakeCandidateMethodSpecific),
        Some(RouteDecisionReason::MethodSpecificTieBreak)
    );
    assert_eq!(
        route_preference_reason(RoutePreference::TakeCandidateLexicalOrder),
        Some(RouteDecisionReason::LexicalTieBreak)
    );
}

#[test]
fn route_decision_reason_display_uses_lowercase_hyphenated_tokens() {
    assert_eq!(RouteDecisionReason::HostTrieNoDefault.to_string(), "host-trie-no-default");
    assert_eq!(RouteDecisionReason::HostPathLongerOrEqual.to_string(), "host-path-longer-or-equal");
    assert_eq!(RouteDecisionReason::DefaultPathLonger.to_string(), "default-path-longer");
    assert_eq!(RouteDecisionReason::HostSpecificTieBreak.to_string(), "host-specific-tie-break");
    assert_eq!(RouteDecisionReason::ExactHostTieBreak.to_string(), "exact-host-tie-break");
    assert_eq!(
        RouteDecisionReason::WildcardSpecificityTieBreak.to_string(),
        "wildcard-specificity-tie-break"
    );
    assert_eq!(RouteDecisionReason::MethodSpecificTieBreak.to_string(), "method-specific-tie-break");
    assert_eq!(RouteDecisionReason::LexicalTieBreak.to_string(), "lexical-tie-break");
}

#[test]
fn normalize_host_for_routing_lowercases_and_strips_port_and_trailing_dot() {
    assert_eq!(normalize_host_for_routing(" Example.COM.:443 "), Some("example.com".to_string()));
}

#[test]
fn normalize_host_for_routing_preserves_already_normalized_host() {
    assert_eq!(normalize_host_for_routing("api.example.com"), Some("api.example.com".to_string()));
}

#[test]
fn normalize_host_for_routing_parses_ipv6_authority() {
    assert_eq!(normalize_host_for_routing("[2001:db8::1]:443"), Some("2001:db8::1".to_string()));
}

#[test]
fn normalize_host_for_routing_rejects_invalid_input() {
    assert_eq!(normalize_host_for_routing(""), None);
    assert_eq!(normalize_host_for_routing("   "), None);
    assert_eq!(normalize_host_for_routing("[missing-end"), None);
}

#[test]
fn normalize_host_for_routing_keeps_bare_ipv6_and_non_numeric_port() {
    assert_eq!(normalize_host_for_routing("2001:db8::1"), Some("2001:db8::1".to_string()));
    assert_eq!(normalize_host_for_routing("host:abc"), Some("host:abc".to_string()));
    assert_eq!(normalize_host_for_routing("host:"), Some("host".to_string()));
    assert_eq!(normalize_host_for_routing("...:80"), None);
}

#[test]
fn parse_configured_host_pattern_distinguishes_exact_and_wildcard_hosts() {
    assert_eq!(
        parse_configured_host_pattern("Api.Example.com."),
        Some(ConfiguredHostPattern::Exact("api.example.com".to_string()))
    );
    assert_eq!(
        parse_configured_host_pattern("*.Example.com"),
        Some(ConfiguredHostPattern::WildcardSuffix("example.com".to_string()))
    );
}

#[test]
fn parse_configured_host_pattern_rejects_invalid_input() {
    assert_eq!(parse_configured_host_pattern(""), None);
    assert_eq!(parse_configured_host_pattern("[missing-end"), None);
}

#[test]
fn parse_configured_host_pattern_treats_bad_wildcards_as_exact() {
    assert_eq!(
        parse_configured_host_pattern("*.*.example.com"),
        Some(ConfiguredHostPattern::Exact("*.*.example.com".to_string()))
    );
    assert_eq!(
        parse_configured_host_pattern("*."),
        Some(ConfiguredHostPattern::Exact("*".to_string()))
    );
}

#[test]
fn parse_configured_host_pattern_ref_distinguishes_exact_and_wildcard_hosts() {
    assert_eq!(
        parse_configured_host_pattern_ref("api.example.com"),
        Some(ConfiguredHostPatternRef::Exact("api.example.com".to_string()))
    );
    assert_eq!(
        parse_configured_host_pattern_ref("*.example.com"),
        Some(ConfiguredHostPatternRef::WildcardSuffix("example.com".to_string()))
    );
}

#[test]
fn parse_configured_host_pattern_ref_rejects_invalid_input() {
    assert_eq!(parse_configured_host_pattern_ref(""), None);
    assert_eq!(parse_configured_host_pattern_ref("[missing-end"), None);
}

#[test]
fn parse_configured_host_pattern_ref_keeps_case() {
    assert_eq!(
        parse_configured_host_pattern_ref("*.Example.COM"),
        Some(ConfiguredHostPatternRef::WildcardSuffix("Example.COM".to_string()))
    );
}

#[test]
fn compare_route_candidate_prefers_longer_path() {
    let current = candidate(0, 4, false, HostMatchKind::Default, 0, false, 0);
    let candidate = candidate(1, 7, false, HostMatchKind::Default, 0, false, 1);
    assert_eq!(compare_route_candidate(current, candidate), RoutePreference::TakeCandidatePathLen);
}

#[test]
fn compare_route_candidate_prefers_host_specific_route() {
    let current = candidate(0, 4, false, HostMatchKind::Default, 0, false, 0);
    let candidate = candidate(1, 4, true, HostMatchKind::Wildcard, 11, false, 1);
    assert_eq!(
        compare_route_candidate(current, candidate),
        RoutePreference::TakeCandidateHostSpecific
    );
}

#[test]
fn compare_route_candidate_prefers_exact_host_over_wildcard() {
    let current = candidate(0, 4, true, HostMatchKind::Wildcard, 11, false, 0);
    let candidate = candidate(1, 4, true, HostMatchKind::Exact, 0, false, 1);
    assert_eq!(compare_route_candidate(current, candidate), RoutePreference::TakeCandidateExactHost);
}

#[test]
fn compare_route_candidate_prefers_more_specific_wildcard_suffix() {
    let current = candidate(0, 4, true, HostMatchKind::Wildcard, 11, false, 0);
    let candidate = candidate(1, 4, true, HostMatchKind::Wildcard, 15, false, 1);
    assert_eq!(
        compare_route_candidate(current, candidate),
        RoutePreference::TakeCandidateWildcardSpecificity
    );
}

#[test]
fn compare_route_candidate_prefers_method_specific_route() {
    let current = candidate(0, 4, true, HostMatchKind::Exact, 0, false, 0);
    let candidate = candidate(1, 4, true, HostMatchKind::Exact, 0, true, 1);
    assert_eq!(
        compare_route_candidate(current, candidate),
        RoutePreference::TakeCandidateMethodSpecific
    );
}

#[test]
fn compare_route_candidate_prefers_lexical_order_on_full_tie() {
    let current = candidate(0, 4, true, HostMatchKind::Exact, 0, true, 2);
    let candidate = candidate(1, 4, true, HostMatchKind::Exact, 0, true, 1);
    assert_eq!(
        compare_route_candidate(current, candidate),
        RoutePreference::TakeCandidateLexicalOrder
    );
}

#[test]
fn compare_route_candidate_is_asymmetric_on_consistent_candidates() {
    let a = candidate(0, 4, true, HostMatchKind::Exact, 0, false, 0);
    let b = candidate(1, 4, true, HostMatchKind::Wildcard, 3, true, 1);
    assert_eq!(compare_route_candidate(b, a), RoutePreference::TakeCandidateExactHost);
    assert_eq!(compare_route_candidate(a, b), RoutePreference::KeepCurrent);
    assert_eq!(compare_route_candidate(a, a), RoutePreference::KeepCurrent);
}

#[test]
fn prefer_route_candidate_returns_preferred_candidate() {
    let current = candidate(0, 4, false, HostMatchKind::Default, 0, false, 0);
    let better = candidate(1, 7, false, HostMatchKind::Default, 0, false, 1);
    assert_eq!(prefer_route_candidate(Some(current), Some(better)), Some(better));
    assert_eq!(prefer_route_candidate(Some(better), Some(current)), Some(better));
    assert_eq!(prefer_route_candidate(None, Some(current)), Some(current));
    assert_eq!(prefer_route_candidate(None, None), None);
}

#[test]
fn prefer_host_lookup_result_carries_tiebreak_reason() {
    let current = HostLookupResult {
        candidate: candidate(0, 4, true, HostMatchKind::Wildcard, 11, false, 0),
        decision_reason: None,
    };
    let better = HostLookupResult {
        candidate: candidate(1, 4, true, HostMatchKind::Exact, 0, false, 1),
        decision_reason: None,
    };
    assert_eq!(
        prefer_host_lookup_result(Some(current), Some(better)),
        Some(HostLookupResult {
            candidate: better.candidate,
            decision_reason: Some(RouteDecisionReason::ExactHostTieBreak),
        })
    );
}

#[test]
fn prefer_host_lookup_result_keeps_current_with_reverse_reason() {
    let better = HostLookupResult {
        candidate: candidate(1, 4, true, HostMatchKind::Exact, 0, false, 1),
        decision_reason: None,
    };
    let worse = HostLookupResult {
        candidate: candidate(0, 4, true, HostMatchKind::Wildcard, 11, false, 0),
        decision_reason: None,
    };
    assert_eq!(
        prefer_host_lookup_result(Some(better), Some(worse)),
        Some(HostLookupResult {
            candidate: better.candidate,
            decision_reason: Some(RouteDecisionReason::ExactHostTieBreak),
        })
    );
}

#[test]
fn best_matching_route_prefers_longest_boundary_match() {
    let routes = vec![
        indexed_route(0, 1, false, false, 0),
        indexed_route(1, 4, false, false, 1),
        indexed_route(2, 5, false, false, 2),
    ];
    let methods: Vec<Option<String>> = vec![None, None, None];
    // "/api" matches at a boundary; the 5-byte prefix would end mid-segment.
    let best = best_matching_route_with_reason(&routes, "/api/v1", None, &methods, None);
    assert_eq!(best, Some((routes[1], Some(RouteDecisionReason::HostPathLongerOrEqual))));
}

#[test]
fn best_matching_route_filters_by_method() {
    let routes = vec![indexed_route(0, 4, false, true, 0), indexed_route(1, 1, false, false, 1)];
    let methods: Vec<Option<String>> = vec![Some("post".to_string()), None];
    let best = best_matching_route_with_reason(&routes, "/api", Some("GET"), &methods, None);
    assert_eq!(best, Some((routes[1], None)));
    let best = best_matching_route_with_reason(&routes, "/api", Some("POST"), &methods, None);
    assert_eq!(best, Some((routes[0], Some(RouteDecisionReason::HostPathLongerOrEqual))));
    let none = best_matching_route_with_reason(&routes[..1], "/api", Some("GET"), &methods, None);
    assert_eq!(none, None);
}

#[test]
fn uppercase_hosts_are_detected() {
    assert!(host_has_uppercase_ascii("Example.com"));
    assert!(!host_has_uppercase_ascii("example.com:443"));
    assert!(!host_has_uppercase_ascii(""));
}

#[test]
fn configured_host_pattern_is_the_case_keeping_one_lowercased() {
    for raw in ["API.Example.COM.", "*.Example.COM", "*.", "*.a*b", " [::1]:443 ", "Host:8080", "..", ""] {
        let lowered = parse_configured_host_pattern(raw);
        let expected = parse_configured_host_pattern_ref(raw).map(|p| match p {
            ConfiguredHostPatternRef::Exact(h) => ConfiguredHostPattern::Exact(h.to_ascii_lowercase()),
            ConfiguredHostPatternRef::WildcardSuffix(s) => {
                ConfiguredHostPattern::WildcardSuffix(s.to_ascii_lowercase())
            }
        });
        assert_eq!(lowered, expected, "raw {raw:?}");
        if let Some(ConfiguredHostPattern::Exact(t) | ConfiguredHostPattern::WildcardSuffix(t)) = &lowered {
            assert!(!t.is_empty() && !t.ends_with('.'));
            assert!(!t.chars().any(|c| c.is_ascii_uppercase()));
        }
    }
    assert_eq!(
        parse_configured_host_pattern("*.Example.COM"),
        Some(ConfiguredHostPattern::WildcardSuffix("example.com".to_string()))
    );
}
