use fortify::backend::{answer_headers, is_hop_by_hop_header, BackendNode, BackpressureController, Metrics, ProxyError};
use fortify::gateway::{session_id_for, SessionResolution, extract_bearer_token, extract_token, is_admin_request, ADMIN_PATH};
use fortify::routing::{Router, RoutingStrategy};
use fortify::startup::{parse_backend_list, parse_onion_list};
use fortify::tier::TrustTier;

fn create_test_nodes(count: usize, max_conn: usize) -> Vec<BackendNode> {
    (0..count)
        .map(|i| BackendNode::new(format!("http://backend-{}", i), true, max_conn))
        .collect()
}

#[test]
fn test_backend_node_capacity() {
    let mut node = BackendNode::new("http://localhost:8080".into(), true, 2);

    assert!(node.can_accept());
    assert!(node.acquire());
    assert!(node.can_accept());
    assert!(node.acquire());
    assert!(!node.can_accept());
    assert!(!node.acquire());

    node.release();
    assert!(node.can_accept());
}

#[test]
fn lib_test_metrics_tracking() {
    let mut metrics = Metrics::default();

    metrics.record_request();
    metrics.record_allowed();
    metrics.record_valid_token();

    assert_eq!(metrics.requests_total, 1);
    assert_eq!(metrics.requests_allowed, 1);
    assert_eq!(metrics.tokens_valid, 1);
    assert_eq!(metrics.requests_denied, 0);
}

#[test]
fn test_extract_token() {
    assert_eq!(
        extract_token(Some("Bearer test-token-123"), None),
        Some("test-token-123".to_string())
    );
    assert_eq!(extract_token(None, None), None);
}

#[test]
fn test_backpressure_controller() {
    let mut controller = BackpressureController::new(3, 5);

    assert_eq!(controller.active_count(), 0);
    assert_eq!(controller.available_capacity(), 3);
    assert!(!controller.is_at_capacity());

    let guard1 = controller.try_acquire().unwrap();
    assert_eq!(controller.active_count(), 1);

    let _guard2 = controller.try_acquire().unwrap();
    assert_eq!(controller.active_count(), 2);

    let _guard3 = controller.try_acquire().unwrap();
    assert_eq!(controller.active_count(), 3);
    assert!(controller.is_at_capacity());

    assert!(controller.try_acquire().is_err());

    guard1.release(&mut controller);
    assert_eq!(controller.active_count(), 2);
    assert!(!controller.is_at_capacity());

    let _guard4 = controller.try_acquire().unwrap();
    assert_eq!(controller.active_count(), 3);
}

#[test]
fn test_request_guard_auto_release() {
    let mut controller = BackpressureController::new(2, 5);
    {
        let guard = controller.try_acquire().unwrap();
        assert_eq!(controller.active_count(), 1);
        guard.release(&mut controller);
    }
    assert_eq!(controller.active_count(), 0);
}

#[test]
fn test_is_hop_by_hop_header() {
    assert!(is_hop_by_hop_header("connection"));
    assert!(is_hop_by_hop_header("keep-alive"));
    assert!(is_hop_by_hop_header("upgrade"));
    assert!(!is_hop_by_hop_header("content-type"));
    assert!(!is_hop_by_hop_header("accept"));
}

#[test]
fn test_round_robin_selection() {
    let healthy = create_test_nodes(3, 10);
    let threat = create_test_nodes(2, 10);
    let mut router = Router::new_with_strategies(
        healthy,
        threat,
        RoutingStrategy::RoundRobin,
        RoutingStrategy::RoundRobin,
    );

    let node1 = router.select_backend(TrustTier::Verified).unwrap();
    let node2 = router.select_backend(TrustTier::Verified).unwrap();
    let node3 = router.select_backend(TrustTier::Verified).unwrap();

    assert_ne!(node1.address, node2.address);
    assert_ne!(node2.address, node3.address);
}

#[test]
fn test_least_connections_selection() {
    let mut nodes = create_test_nodes(3, 10);
    nodes[0].active_connections = 5;
    nodes[1].active_connections = 2;
    nodes[2].active_connections = 8;

    let mut router = Router::new(nodes, vec![], RoutingStrategy::LeastConnections);
    let selected = router.select_backend(TrustTier::Verified).unwrap();

    assert_eq!(selected.address, "http://backend-1");
}

#[test]
fn test_tier_routing() {
    let healthy = create_test_nodes(3, 10);
    let threat = create_test_nodes(2, 10);
    let mut router = Router::new(healthy, threat, RoutingStrategy::RoundRobin);

    let node = router.select_backend(TrustTier::Verified).unwrap();
    assert!(node.address.contains("backend-"));

    let node = router.select_backend(TrustTier::Suspicious).unwrap();
    assert!(node.address.contains("backend-"));
}

#[test]
fn test_no_available_backends() {
    let mut nodes = create_test_nodes(2, 1);
    for node in nodes.iter_mut() {
        node.acquire();
    }

    let mut router = Router::new(nodes, vec![], RoutingStrategy::RoundRobin);
    let result = router.select_backend(TrustTier::Verified);

    assert!(result.is_none());
}

#[test]
fn test_has_available_backend() {
    let healthy = create_test_nodes(2, 10);
    let threat = create_test_nodes(2, 10);
    let router = Router::new(healthy, threat, RoutingStrategy::RoundRobin);

    assert!(router.has_available_backend(TrustTier::Verified));
    assert!(router.has_available_backend(TrustTier::Suspicious));
}

#[test]
fn node_name_comes_from_address() {
    let node = BackendNode::new("127.0.0.1:9100".into(), true, 5);
    assert_eq!(node.name, "127-0-0-1-9100");
    assert_eq!(node.weight, 1);
}

#[test]
fn released_node_never_goes_below_zero() {
    let mut node = BackendNode::new("a:1".into(), false, 1);
    node.release();
    assert_eq!(node.active_connections, 0);
}

#[test]
fn backpressure_error_is_reported() {
    let mut controller = BackpressureController::new(0, 5);
    assert!(controller.is_at_capacity());
    assert_eq!(controller.try_acquire(), Err(ProxyError::BackpressureExceeded));
    assert_eq!(ProxyError::BackpressureExceeded.message(), "Backpressure limit exceeded");
}

#[test]
fn bearer_token_needs_the_scheme() {
    assert_eq!(extract_bearer_token(Some("Bearer abc")), Some("abc".to_string()));
    assert_eq!(extract_bearer_token(Some("Basic abc")), None);
    assert_eq!(extract_bearer_token(None), None);
}

#[test]
fn admin_paths_are_recognised() {
    assert!(is_admin_request(ADMIN_PATH));
    assert!(is_admin_request(&format!("{}/sessions", ADMIN_PATH)));
    assert!(!is_admin_request("/ctrl"));
}

#[test]
fn backend_list_skips_empty_pieces() {
    let nodes = parse_backend_list(Some(" a:1 , ,b:2".to_string()), &["z:9"], true, 7);
    assert_eq!(nodes.len(), 2);
    assert_eq!(nodes[0].address, "a:1");
    assert_eq!(nodes[1].address, "b:2");
    assert_eq!(nodes[1].max_connections, 7);
    assert!(nodes[0].healthy_mode);
}

#[test]
fn backend_list_falls_back() {
    let nodes = parse_backend_list(None, &["z:9", "y:8"], false, 3);
    assert_eq!(nodes.len(), 2);
    assert_eq!(nodes[0].address, "z:9");
    assert!(!nodes[1].healthy_mode);
}

#[test]
fn onion_list_keeps_positions() {
    let onions = parse_onion_list(Some("a.onion, ,b.onion".to_string()));
    assert_eq!(onions, vec![Some("a.onion".to_string()), None, Some("b.onion".to_string())]);
    assert!(parse_onion_list(None).is_empty());
}

#[test]
fn fill_first_fills_a_node_to_capacity() {
    let mut a = BackendNode::with_name("a".into(), "http://a".into(), false, 10);
    for _ in 0..8 {
        assert!(a.acquire());
    }
    let b = BackendNode::with_name("b".into(), "http://b".into(), false, 10);
    let mut router = Router::new_with_strategies(vec![], vec![a, b], RoutingStrategy::RoundRobin, RoutingStrategy::FillFirst);
    assert_eq!(router.select_backend(TrustTier::Suspicious).unwrap().name, "a");
    assert_eq!(router.fill_first_index, 0);
}

fn pairs(v: &[(&str, &str)]) -> Vec<(String, String)> {
    v.iter().map(|(k, x)| (k.to_string(), x.to_string())).collect()
}

#[test]
fn demote_flag_clears_the_session_cookie() {
    let out = answer_headers(&pairs(&[("Content-Type", "text/html"), ("X-Fortify-Demote", "1")]));
    assert_eq!(
        out,
        pairs(&[("Content-Type", "text/html"), ("Set-Cookie", "fortify_session=; Path=/; Max-Age=0; HttpOnly")])
    );
}

#[test]
fn demote_flag_keeps_a_cookie_the_node_set() {
    let out = answer_headers(&pairs(&[("x-fortify-demote", "yes"), ("set-cookie", "fortify_session=gone")]));
    assert_eq!(out, pairs(&[("set-cookie", "fortify_session=gone")]));
}

#[test]
fn answer_without_demote_flag_is_untouched() {
    let input = pairs(&[("Content-Type", "text/plain"), ("Set-Cookie", "a=b")]);
    assert_eq!(answer_headers(&input), input);
}

#[test]
fn acquired_node_slots_are_given_back() {
    let a = BackendNode::with_name("a".into(), "http://a".into(), true, 1);
    let b = BackendNode::with_name("b".into(), "http://b".into(), true, 1);
    let mut router = Router::new_with_strategies(vec![a, b], vec![], RoutingStrategy::FillFirst, RoutingStrategy::RoundRobin);
    assert!(router.acquire_node(TrustTier::Verified, "a"));
    assert_eq!(router.healthy_nodes[0].active_connections, 1);
    assert!(!router.acquire_node(TrustTier::Verified, "a"));
    assert_eq!(router.select_backend(TrustTier::Verified).unwrap().name, "b");
    assert!(!router.acquire_node(TrustTier::Verified, "missing"));
    assert!(router.release_node(TrustTier::Verified, "a"));
    assert_eq!(router.healthy_nodes[0].active_connections, 0);
    assert!(!router.release_node(TrustTier::Suspicious, "a"));
}

fn resolution(verified: Option<&str>, stale: Option<&str>) -> SessionResolution {
    SessionResolution {
        tier: TrustTier::Unknown,
        verified_session_id: verified.map(|s| s.to_string()),
        stale_session_id: stale.map(|s| s.to_string()),
        token_valid: false,
        token_invalid: false,
        clear_tier_override: false,
    }
}

#[test]
fn session_goes_on_with_verified_then_stale_then_fresh_id() {
    assert_eq!(session_id_for(&resolution(Some("v"), Some("s"))), "v");
    assert_eq!(session_id_for(&resolution(None, Some("s"))), "s");
    let a = session_id_for(&resolution(None, None));
    let b = session_id_for(&resolution(None, None));
    assert_eq!(a.len(), 36);
    assert_eq!(&a[8..9], "-");
    assert_ne!(a, b);
}
