use spooky::hash::{stable_hash64, stable_hash_socket_addr, SocketAddress};
use spooky::lb::pool::{create_backend_state, BackendPool};
use spooky::quic_listener::backend_resolution::{
    dns_refresh_interval_ms, dns_refresh_should_run, plan_dns_refresh, with_port, DnsRefreshStep,
};
use spooky::resilience::connect::{connect_authority_port, normalize_connect_authority};
use spooky::runtime::backend::event::{BackendRefreshOutcome, BackendRefreshResult};
use spooky::runtime::backend::lifecycle::RuntimeBackendLifecycleState;
use spooky::runtime::backend::resolution::{RuntimeBackendAddressKind, RuntimeBackendResolution};
use spooky::runtime::backend::state::{
    BackendHealthState, BackendLifecycleSnapshot, BackendMembershipState, BackendResolutionState,
};
use spooky::runtime::backend::update::RuntimeBackendResolutionUpdate;
use spooky::runtime::shared_state::{
    snapshot_backend_health, RuntimeGenerationState, RuntimeMetricsCounters,
    RuntimeSharedServices, SharedRuntimeState,
};
use spooky::time::TimeSpan;

fn v4(a: u8, b: u8, c: u8, d: u8, port: u16) -> SocketAddress {
    SocketAddress::V4 { ip: [a, b, c, d], port }
}

#[test]
fn lifecycle_state_seeds_from_resolution_with_unknown_health() {
    let resolution = RuntimeBackendResolution::hostname(
        "https://backend.internal:8443".to_string(),
        "backend.internal".to_string(),
        8443,
    );

    let state = RuntimeBackendLifecycleState::from(&resolution);

    assert_eq!(state.identity.backend_addr, "https://backend.internal:8443");
    assert_eq!(state.membership, BackendMembershipState::Active);
    assert_eq!(state.health, BackendHealthState::Unknown);
    assert!(state.resolution.is_hostname());
}

#[test]
fn lifecycle_snapshot_copies_state() {
    let mut resolution = RuntimeBackendResolution::hostname(
        "https://backend.internal:8443".to_string(),
        "backend.internal".to_string(),
        8443,
    );
    resolution.resolved_addrs = vec![v4(10, 0, 0, 1, 8443)];
    resolution.refresh_generation = 4;
    let state = RuntimeBackendLifecycleState::from_resolution_seed(&resolution);
    let snapshot = state.snapshot();
    assert_eq!(snapshot.identity.backend_addr, "https://backend.internal:8443");
    assert_eq!(snapshot.resolution.resolved_addrs, vec![v4(10, 0, 0, 1, 8443)]);
    assert_eq!(snapshot.resolution.refresh_generation, 4);
    assert_eq!(snapshot.resolution.authority_port, 8443);
    assert_eq!(snapshot.health, BackendHealthState::Unknown);
    let again = BackendLifecycleSnapshot::from(&state);
    assert_eq!(again, snapshot);
    let converted: BackendLifecycleSnapshot = (&state).into();
    assert_eq!(converted, snapshot);
}

#[test]
fn refresh_result_from_update_marks_changed_updates() {
    let now = TimeSpan::from_secs(1_700_000_000);
    let update = RuntimeBackendResolutionUpdate {
        backend_addr: "https://backend.internal:8443".to_string(),
        authority_host: "backend.internal".to_string(),
        authority_port: 8443,
        address_kind: RuntimeBackendAddressKind::Hostname,
        previous_addrs: vec![v4(10, 0, 0, 10, 8443)],
        current_addrs: vec![v4(10, 0, 0, 11, 8443)],
        last_refresh_success_at: Some(now),
        refresh_generation: 2,
    };

    let result = BackendRefreshResult::from(&update);

    assert_eq!(result.identity.backend_addr, update.backend_addr);
    assert!(matches!(
        result.outcome,
        BackendRefreshOutcome::Updated {
            refresh_generation: 2,
            ..
        }
    ));
    assert!(update.changed());
    assert!(!update.cleared());
}

#[test]
fn refresh_result_from_update_marks_unchanged_updates() {
    let resolution = RuntimeBackendResolution::hostname(
        "https://backend.internal:8443".to_string(),
        "backend.internal".to_string(),
        8443,
    );
    let state = BackendResolutionState::from_resolution(&resolution);
    let update = RuntimeBackendResolutionUpdate {
        backend_addr: resolution.backend_addr.clone(),
        authority_host: state.authority_host,
        authority_port: state.authority_port,
        address_kind: state.address_kind,
        previous_addrs: vec![v4(10, 0, 0, 10, 8443)],
        current_addrs: vec![v4(10, 0, 0, 10, 8443)],
        last_refresh_success_at: None,
        refresh_generation: 1,
    };

    let result = BackendRefreshResult::from(&update);

    assert!(matches!(
        result.outcome,
        BackendRefreshOutcome::Unchanged {
            refresh_generation: 1,
            ..
        }
    ));
}

#[test]
fn resolution_update_reports_order_change_and_clearing() {
    let mut update = RuntimeBackendResolutionUpdate {
        backend_addr: "api".to_string(),
        authority_host: "api.internal".to_string(),
        authority_port: 443,
        address_kind: RuntimeBackendAddressKind::Hostname,
        previous_addrs: vec![v4(10, 0, 0, 1, 443), v4(10, 0, 0, 2, 443)],
        current_addrs: vec![v4(10, 0, 0, 2, 443), v4(10, 0, 0, 1, 443)],
        last_refresh_success_at: None,
        refresh_generation: 3,
    };
    assert!(update.changed());
    let state = update.resolution_state();
    assert_eq!(state.resolved_addrs, update.current_addrs);
    assert_eq!(state.refresh_generation, 3);
    assert_eq!(update.identity().backend_addr, "api");
    assert!(matches!(
        update.refresh_result().outcome,
        BackendRefreshOutcome::Updated { .. }
    ));
    update.current_addrs.clear();
    assert!(update.cleared());
}

#[test]
fn stable_hash_socket_addr_is_deterministic_for_ipv4_and_ipv6() {
    let ipv4 = v4(127, 0, 0, 1, 8443);
    let ipv6 = SocketAddress::V6 {
        ip: [0x20, 0x01, 0x0d, 0xb8, 0, 0, 0, 0, 0, 0, 0, 0, 0, 0, 0, 1],
        port: 8443,
        flowinfo: 7,
        scope_id: 3,
    };

    assert_eq!(
        stable_hash_socket_addr(&ipv4),
        stable_hash_socket_addr(&ipv4)
    );
    assert_eq!(
        stable_hash_socket_addr(&ipv6),
        stable_hash_socket_addr(&ipv6)
    );
}

#[test]
fn stable_hash_socket_addr_distinguishes_ipv4_from_ipv6() {
    let ipv4 = v4(127, 0, 0, 1, 8443);
    let ipv6 = SocketAddress::V6 {
        ip: [0, 0, 0, 0, 0, 0, 0, 0, 0, 0, 0, 0, 0, 0, 0, 1],
        port: 8443,
        flowinfo: 0,
        scope_id: 0,
    };

    assert_ne!(
        stable_hash_socket_addr(&ipv4),
        stable_hash_socket_addr(&ipv6)
    );
}

#[test]
fn stable_hash_socket_addr_hashes_family_octets_and_port() {
    let ipv4 = v4(127, 0, 0, 1, 8443);
    assert_eq!(
        stable_hash_socket_addr(&ipv4),
        stable_hash64(&[4, 127, 0, 0, 1, 0x20, 0xfb])
    );
    let ipv6 = SocketAddress::V6 {
        ip: [0; 16],
        port: 1,
        flowinfo: 0x01020304,
        scope_id: 5,
    };
    let mut bytes = vec![6u8];
    bytes.extend_from_slice(&[0; 16]);
    bytes.extend_from_slice(&[0, 1, 1, 2, 3, 4, 0, 0, 0, 5, 0, 0, 0, 0]);
    assert_eq!(bytes.len(), 31);
    assert_eq!(stable_hash_socket_addr(&ipv6), stable_hash64(&bytes));
}

#[test]
fn connect_authority_is_normalized() {
    assert_eq!(
        normalize_connect_authority(" Example.COM.:443 ").as_deref(),
        Some("example.com:443")
    );
    assert_eq!(
        normalize_connect_authority("[2001:DB8::1]:8443").as_deref(),
        Some("[2001:db8::1]:8443")
    );
    assert_eq!(
        normalize_connect_authority("host:+080").as_deref(),
        Some("host:80")
    );
    assert_eq!(normalize_connect_authority(""), None);
    assert_eq!(normalize_connect_authority("host name:443"), None);
    assert_eq!(normalize_connect_authority("host:0"), None);
    assert_eq!(normalize_connect_authority("host:70000"), None);
    assert_eq!(normalize_connect_authority("a:b:443"), None);
    assert_eq!(normalize_connect_authority(":443"), None);
    assert_eq!(normalize_connect_authority("[]:443"), None);
    assert_eq!(normalize_connect_authority("[::1]"), None);
    assert_eq!(normalize_connect_authority("[::1]:"), None);
    assert_eq!(normalize_connect_authority("[::1"), None);
    assert_eq!(normalize_connect_authority("host"), None);
}

#[test]
fn connect_authority_port_reads_normalized_port() {
    assert_eq!(connect_authority_port("example.com:443"), Some(443));
    assert_eq!(connect_authority_port("[2001:db8::1]:8443"), Some(8443));
    assert_eq!(connect_authority_port("[2001:db8::1]"), None);
    assert_eq!(connect_authority_port("example.com"), None);
    let normalized = normalize_connect_authority("EXAMPLE.com:8080").unwrap();
    assert_eq!(connect_authority_port(&normalized), Some(8080));
}

#[test]
fn backend_health_snapshot_sums_pools() {
    let mut first = BackendPool::new_from_states(vec![
        create_backend_state("10.0.0.1:80", 1),
        create_backend_state("10.0.0.2:80", 1),
    ]);
    first.mark_failure(1);
    first.mark_failure(1);
    first.mark_failure(1);
    let second = BackendPool::new_from_states(vec![create_backend_state("10.0.1.1:80", 1)]);
    let empty = BackendPool::new_from_states(Vec::new());
    assert_eq!(snapshot_backend_health(&vec![first, second, empty]), (2, 3));
    assert_eq!(snapshot_backend_health(&Vec::new()), (0, 0));
}

#[test]
fn shared_state_counts_ingress_drops_and_reads_pools() {
    let mut state = SharedRuntimeState::from_parts(
        RuntimeSharedServices {
            metrics: RuntimeMetricsCounters {
                worker_slot: None,
                ingress_queue_drops: u64::MAX,
                ingress_queue_drop_bytes: 10,
                ingress_queue_bytes: 0,
            },
        },
        RuntimeGenerationState {
            upstream_pools: vec![BackendPool::new_from_states(vec![create_backend_state(
                "10.0.0.1:80",
                1,
            )])],
        },
    );
    state.bind_metrics_worker_slot(3);
    state.inc_ingress_queue_drop();
    state.inc_ingress_queue_drop_bytes(5);
    state.set_ingress_queue_bytes(42);
    let metrics = &state.shared_services().metrics;
    assert_eq!(metrics.worker_slot, Some(3));
    assert_eq!(metrics.ingress_queue_drops, 0);
    assert_eq!(metrics.ingress_queue_drop_bytes, 15);
    assert_eq!(metrics.ingress_queue_bytes, 42);
    assert_eq!(state.generation_state().upstream_pools.len(), 1);
    assert_eq!(state.snapshot_backend_health(), (1, 1));
}

#[test]
fn normalized_connect_authority_is_stable() {
    for raw in ["Example.COM.:443", " [2001:DB8::1.]:8443 ", "host:+080", "a.b.c:1"] {
        let once = normalize_connect_authority(raw).unwrap();
        assert_eq!(normalize_connect_authority(&once).as_deref(), Some(once.as_str()));
    }
    let dots = normalize_connect_authority("...:80").unwrap();
    assert_eq!(dots, ":80");
    assert_eq!(normalize_connect_authority(&dots), None);
}

#[test]
fn dns_refresh_plan_moves_ports_and_keeps_on_failure() {
    let answer = vec![
        v4(10, 0, 0, 1, 0),
        SocketAddress::V6 {
            ip: [0; 16],
            port: 53,
            flowinfo: 9,
            scope_id: 2,
        },
    ];
    assert_eq!(
        plan_dns_refresh(None, 8443),
        DnsRefreshStep::KeepAfterLookupFailure
    );
    assert_eq!(
        plan_dns_refresh(Some(&Vec::new()), 8443),
        DnsRefreshStep::KeepAfterEmptyAnswer
    );
    assert_eq!(
        plan_dns_refresh(Some(&answer), 8443),
        DnsRefreshStep::Apply {
            backend_addrs: vec![
                v4(10, 0, 0, 1, 8443),
                SocketAddress::V6 {
                    ip: [0; 16],
                    port: 8443,
                    flowinfo: 0,
                    scope_id: 0
                }
            ],
            resolver_addrs: with_port(&answer, 0),
        }
    );
    assert!(dns_refresh_should_run(true, 1));
    assert!(!dns_refresh_should_run(true, 0));
    assert!(!dns_refresh_should_run(false, 3));
    assert_eq!(dns_refresh_interval_ms(0), 1);
    assert_eq!(dns_refresh_interval_ms(250), 250);
}

#[test]
fn normalized_connect_authority_is_a_fixed_point() {
    for raw in [" Example.COM.:443 ", "[2001:DB8::1]:8443", "HOST:+080", "a.B.c..:65535"] {
        let n = normalize_connect_authority(raw).unwrap();
        assert!(!n.chars().any(|c| c.is_whitespace() || c.is_ascii_uppercase()));
        assert_eq!(normalize_connect_authority(&n).as_deref(), Some(n.as_str()));
    }
    assert_eq!(normalize_connect_authority(".:80").as_deref(), Some(":80"));
    assert_eq!(normalize_connect_authority(":80"), None);
    assert_eq!(
        connect_authority_port(&normalize_connect_authority("HOST:+080").unwrap()),
        Some(80)
    );
}
