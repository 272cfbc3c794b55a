use spooky::lb::pool::{create_backend_state, BackendPool};
use spooky::lb::{
    random_pick_with_draw, round_robin_pick_at, ConsistentHash, LatencyAware, LeastConnections, Random, RoundRobin,
    StickyCid,
};
use spooky::time::TimeSpan;

#[test]
fn unhealthy_backends_are_skipped() {
    let mut pool = BackendPool::new_from_states(vec![
        create_backend_state("10.0.0.1:1", 1),
        create_backend_state("10.0.0.2:1", 1),
    ]);

    pool.mark_failure(0);
    pool.mark_failure(0);
    pool.mark_failure(0);

    let mut rr = RoundRobin::new();
    let pick = rr.pick(&pool).unwrap();
    assert_eq!(pick, 1);
}

#[test]
fn least_connections_picks_lowest_active() {
    let mut pool = BackendPool::new_from_states(vec![
        create_backend_state("10.0.0.1:1", 1),
        create_backend_state("10.0.0.2:1", 1),
        create_backend_state("10.0.0.3:1", 1),
    ]);
    pool.begin_request(0);
    pool.begin_request(0);
    pool.begin_request(1);

    let mut lb = LeastConnections::new();
    assert_eq!(lb.pick(&pool), Some(2));
}

#[test]
fn latency_aware_prefers_lower_ewma() {
    let mut pool = BackendPool::new_from_states(vec![
        create_backend_state("10.0.0.1:1", 1),
        create_backend_state("10.0.0.2:1", 1),
    ]);

    pool.finish_request(0, TimeSpan::from_millis(150), Some(200));
    pool.finish_request(1, TimeSpan::from_millis(20), Some(200));

    let mut lb = LatencyAware::new();
    assert_eq!(lb.pick(&pool), Some(1));
}

#[test]
fn sticky_cid_is_deterministic_for_same_key() {
    let pool = BackendPool::new_from_states(vec![
        create_backend_state("10.0.0.1:1", 1),
        create_backend_state("10.0.0.2:1", 1),
        create_backend_state("10.0.0.3:1", 1),
    ]);

    let mut lb = StickyCid::new(16);
    let first = lb.pick("cid:abc123", &pool);
    let second = lb.pick("cid:abc123", &pool);
    assert_eq!(first, second);
}

#[test]
fn no_healthy_backends_returns_none() {
    let mut pool = BackendPool::new_from_states(vec![create_backend_state("10.0.0.1:1", 1)]);
    pool.mark_failure(0);
    pool.mark_failure(0);
    pool.mark_failure(0);

    let mut rr = RoundRobin::new();
    assert!(rr.pick(&pool).is_none());
}

#[test]
fn round_robin_cycles_through_healthy_backends() {
    let pool = BackendPool::new_from_states(vec![
        create_backend_state("a:1", 1),
        create_backend_state("b:1", 1),
        create_backend_state("c:1", 1),
    ]);
    let mut rr = RoundRobin::new();
    let picks: Vec<Option<usize>> = (0..4).map(|_| rr.pick(&pool)).collect();
    assert_eq!(picks, vec![Some(0), Some(1), Some(2), Some(0)]);
    assert!(matches!(rr.pick_readonly(&pool), Some(i) if i < 3));
}

#[test]
fn success_restores_a_failed_backend() {
    let mut pool = BackendPool::new_from_states(vec![create_backend_state("a:1", 1)]);
    pool.mark_failure(0);
    pool.mark_failure(0);
    assert_eq!(pool.healthy_len(), 1);
    pool.mark_failure(0);
    assert_eq!(pool.healthy_len(), 0);
    assert_eq!(pool.membership_epoch(), 1);
    pool.mark_success(0);
    assert_eq!(pool.healthy_len(), 1);
    assert_eq!(pool.membership_epoch(), 2);
}

#[test]
fn server_errors_count_as_failures_and_client_errors_do_not() {
    let mut pool = BackendPool::new_from_states(vec![create_backend_state("a:1", 1)]);
    for _ in 0..3 {
        pool.finish_request(0, TimeSpan::from_millis(1), Some(404));
    }
    assert_eq!(pool.healthy_len(), 1);
    for _ in 0..3 {
        pool.finish_request(0, TimeSpan::from_millis(1), Some(503));
    }
    assert_eq!(pool.healthy_len(), 0);
}

#[test]
fn latency_ewma_weighs_new_samples_by_a_quarter() {
    let mut pool = BackendPool::new_from_states(vec![create_backend_state("a:1", 1)]);
    pool.finish_request(0, TimeSpan::from_millis(100), None);
    assert_eq!(pool.backend(0).ewma_latency_us(), Some(100_000));
    pool.finish_request(0, TimeSpan::from_millis(20), None);
    assert_eq!(pool.backend(0).ewma_latency_us(), Some(80_000));
}

#[test]
fn latency_aware_prefers_unsampled_backends() {
    let mut pool = BackendPool::new_from_states(vec![
        create_backend_state("a:1", 1),
        create_backend_state("b:1", 1),
    ]);
    pool.finish_request(0, TimeSpan::from_millis(1), Some(200));
    assert_eq!(LatencyAware::new().pick_readonly(&pool), Some(1));
}

#[test]
fn consistent_hash_only_picks_healthy_backends() {
    let mut pool = BackendPool::new_from_states(vec![
        create_backend_state("10.0.0.1:1", 2),
        create_backend_state("10.0.0.2:1", 1),
    ]);
    let mut ch = ConsistentHash::new(8);
    for key in ["a", "b", "c", "d", "e", "f"] {
        assert!(matches!(ch.pick(key, &pool), Some(i) if i < 2));
    }
    pool.mark_failure(1);
    pool.mark_failure(1);
    pool.mark_failure(1);
    for key in ["a", "b", "c", "d", "e", "f"] {
        assert_eq!(ch.pick(key, &pool), Some(0));
    }
    let empty = BackendPool::new_from_states(vec![]);
    assert_eq!(ch.pick("a", &empty), None);
}

#[test]
fn sticky_cid_empty_key_uses_first_healthy_backend() {
    let mut pool = BackendPool::new_from_states(vec![
        create_backend_state("a:1", 1),
        create_backend_state("b:1", 1),
    ]);
    pool.mark_failure(0);
    pool.mark_failure(0);
    pool.mark_failure(0);
    let mut lb = StickyCid::new(4);
    assert_eq!(lb.pick("", &pool), Some(1));
}

#[test]
fn random_picks_a_healthy_backend() {
    let mut pool = BackendPool::new_from_states(vec![
        create_backend_state("a:1", 1),
        create_backend_state("b:1", 1),
    ]);
    pool.mark_failure(1);
    pool.mark_failure(1);
    pool.mark_failure(1);
    let mut r = Random::new();
    for _ in 0..10 {
        assert_eq!(r.pick(&pool), Some(0));
    }
}

#[test]
fn least_connections_breaks_ties_by_index() {
    let pool = BackendPool::new_from_states(vec![
        create_backend_state("a:1", 1),
        create_backend_state("b:1", 1),
    ]);
    assert_eq!(spooky::lb::algorithms::least_connections::LeastConnections::new().pick_readonly(&pool), Some(0));
}

#[test]
fn round_robin_window_answers_each_healthy_backend_once() {
    let mut pool = BackendPool::new_from_states(vec![
        create_backend_state("a:1", 1),
        create_backend_state("b:1", 1),
        create_backend_state("c:1", 1),
        create_backend_state("d:1", 1),
    ]);
    pool.mark_failure(1);
    pool.mark_failure(1);
    pool.mark_failure(1);
    let healthy = [0usize, 2, 3];
    let mut rr = RoundRobin::new();
    let picks: Vec<Option<usize>> = (0..10).map(|_| rr.pick(&pool)).collect();
    for (k, pick) in picks.iter().enumerate() {
        assert_eq!(*pick, Some(healthy[k % 3]));
    }
    for start in 0..=7 {
        let mut window: Vec<usize> = picks[start..start + 3].iter().map(|p| p.unwrap()).collect();
        window.sort();
        assert_eq!(window, vec![0, 2, 3]);
    }
}

#[test]
fn round_robin_without_healthy_backends_keeps_its_position() {
    let mut pool = BackendPool::new_from_states(vec![create_backend_state("a:1", 1)]);
    pool.mark_failure(0);
    pool.mark_failure(0);
    pool.mark_failure(0);
    let mut rr = RoundRobin::new();
    for _ in 0..5 {
        assert_eq!(rr.pick(&pool), None);
    }
    let healthy = BackendPool::new_from_states(vec![
        create_backend_state("a:1", 1),
        create_backend_state("b:1", 1),
    ]);
    // The rotation did not move while nothing was healthy.
    assert_eq!(rr.pick(&healthy), Some(0));
}

#[test]
fn consistent_hash_repeated_picks_match_a_fresh_balancer() {
    let pool = BackendPool::new_from_states(vec![
        create_backend_state("10.0.0.1:1", 1),
        create_backend_state("10.0.0.2:1", 3),
        create_backend_state("10.0.0.3:1", 1),
    ]);
    let mut ch = ConsistentHash::new(16);
    for round in 0..3 {
        for key in ["alpha", "beta", "gamma", "delta"] {
            let fresh = ConsistentHash::new(16).pick(key, &pool);
            assert_eq!(ch.pick(key, &pool), fresh, "round {round} key {key}");
            assert!(matches!(fresh, Some(i) if i < 3));
        }
    }
}

#[test]
fn consistent_hash_without_weighted_healthy_backends_answers_nothing() {
    let pool = BackendPool::new_from_states(vec![
        create_backend_state("10.0.0.1:1", 0),
        create_backend_state("10.0.0.2:1", 0),
    ]);
    let mut ch = ConsistentHash::new(8);
    assert_eq!(ch.pick("a", &pool), None);
    assert_eq!(ConsistentHash::new(0).pick("a", &pool), None);
}

#[test]
fn random_pick_with_draw_indexes_the_healthy_list() {
    let mut pool = BackendPool::new_from_states(vec![
        create_backend_state("a:1", 1),
        create_backend_state("b:1", 1),
        create_backend_state("c:1", 1),
    ]);
    pool.mark_failure(0);
    pool.mark_failure(0);
    pool.mark_failure(0);
    assert_eq!(random_pick_with_draw(&pool, 0), Some(1));
    assert_eq!(random_pick_with_draw(&pool, 1), Some(2));
    let empty = BackendPool::new_from_states(vec![]);
    assert_eq!(random_pick_with_draw(&empty, 7), None);
}

#[test]
fn round_robin_pick_at_takes_the_position_modulo_the_healthy_count() {
    let mut pool = BackendPool::new_from_states(vec![
        create_backend_state("a:1", 1),
        create_backend_state("b:1", 1),
        create_backend_state("c:1", 1),
    ]);
    pool.mark_failure(1);
    pool.mark_failure(1);
    pool.mark_failure(1);
    assert_eq!(round_robin_pick_at(&pool, 0), Some(0));
    assert_eq!(round_robin_pick_at(&pool, 1), Some(2));
    assert_eq!(round_robin_pick_at(&pool, 4), Some(0));
    assert_eq!(round_robin_pick_at(&pool, usize::MAX), Some(2));
    let rr = RoundRobin::new();
    let picks: Vec<Option<usize>> = (0..4).map(|_| rr.pick_readonly(&pool)).collect();
    assert_eq!(picks, vec![Some(0), Some(2), Some(0), Some(2)]);
    let empty = BackendPool::new_from_states(vec![]);
    assert_eq!(round_robin_pick_at(&empty, 3), None);
}
