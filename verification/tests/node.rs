use fortify::backend::ProxyError;
use fortify::registry::OrchestratorError;
use fortify::detection::{BehaviorDetector, RequestValidator};
use fortify::node::{Node, NodeAction, NodeConfig, NodeError, NodeMetrics, NodeMode, ViolationType};

fn create_test_node(mode: NodeMode) -> Node {
    let config = NodeConfig { mode, ..Default::default() };
    Node::new(config)
}

#[test]
fn test_node_mode_properties() {
    assert_eq!(NodeMode::Healthy.max_requests_per_minute(), 20);
    assert_eq!(NodeMode::Threat.max_requests_per_minute(), 10);

    assert!(!NodeMode::Healthy.should_inspect_deeply());
    assert!(NodeMode::Threat.should_inspect_deeply());
}

#[test]
fn test_violation_severity() {
    assert_eq!(ViolationType::RateLimitExceeded.severity(), 1);
    assert_eq!(ViolationType::SuspiciousPattern.severity(), 3);
}

#[test]
fn test_violation_recording() {
    let mut node = create_test_node(NodeMode::Healthy);

    node.record_violation("test-123", ViolationType::RateLimitExceeded, "Test");
    node.record_violation("test-123", ViolationType::MalformedRequest, "Test");

    assert_eq!(node.get_violation_count("test-123"), 2);
    assert_eq!(node.get_metrics().violations_detected, 2);
}

#[test]
fn test_path_validation() {
    let node = create_test_node(NodeMode::Threat);

    assert!(node.validate_path("/api/users").is_ok());
    assert!(node.validate_path("/api/../etc/passwd").is_err());
    assert!(node.validate_path("/api/<script>alert</script>").is_err());
}

#[test]
fn test_rate_limiting() {
    let mut node = create_test_node(NodeMode::Threat);
    let limit = NodeMode::Threat.max_requests_per_minute();

    node.record_violation("session-1", ViolationType::RateLimitExceeded, "Test");

    for i in 0..limit {
        let result = node.check_rate_limit("session-1");
        assert!(result.is_ok(), "Request {} should be allowed", i + 1);
    }

    assert!(node.check_rate_limit("session-1").is_err());
}

#[test]
fn test_demotion_threshold() {
    let mut node = create_test_node(NodeMode::Healthy);
    for i in 0..3 {
        node.record_violation("test-123", ViolationType::RateLimitExceeded, &format!("Test {}", i));
    }
    assert!(node.check_demotion("test-123"));
}

#[test]
fn clean_session_gets_one_burst() {
    let mut node = create_test_node(NodeMode::Threat);
    for _ in 0..10 {
        assert!(node.check_rate_limit("s").is_ok());
    }
    assert!(node.check_rate_limit("s").is_ok());
    assert!(matches!(node.check_rate_limit("s"), Err(NodeError::RateLimitExceeded)));
}

#[test]
fn suspicious_pattern_is_named() {
    let node = create_test_node(NodeMode::Threat);
    match node.validate_path("/x?q=' OR 1=1") {
        Err(e) => assert_eq!(e.message(), "Violation detected: Suspicious pattern: ' OR "),
        Ok(()) => panic!("path should be refused"),
    }
}

#[test]
fn oversized_request_is_refused() {
    let mut node = create_test_node(NodeMode::Healthy);
    let action = node.process_request("s", "/", Some("20000000"), 100);
    match action {
        NodeAction::Reject(e) => assert_eq!(e.message(), "Violation detected: Request too large"),
        other => panic!("unexpected {:?}", other),
    }
    assert_eq!(node.get_violation_count("s"), 1);
}

#[test]
fn threshold_session_goes_to_gate() {
    let mut node = create_test_node(NodeMode::Threat);
    for _ in 0..3 {
        node.record_violation_at("s", ViolationType::InvalidPath, "Invalid path", 50);
    }
    assert!(matches!(node.process_request("s", "/", None, 60), NodeAction::RedirectToGate));
    assert!(matches!(node.process_request("t", "/ok", None, 60), NodeAction::Forward));
}

#[test]
fn cleanup_forgets_old_violations() {
    let mut node = create_test_node(NodeMode::Healthy);
    node.record_violation_at("s", ViolationType::InvalidPath, "x", 100);
    node.record_violation_at("s", ViolationType::InvalidPath, "y", 350);
    node.check_rate_limit("s").unwrap();
    node.cleanup_tick(450);
    assert_eq!(node.get_violation_count("s"), 1);
    assert_eq!(node.request_count("s"), 0);
}

#[test]
fn location_and_cookie_are_rewritten() {
    let node = create_test_node(NodeMode::Healthy);
    assert_eq!(node.rewrite_location("http://127.0.0.1:9000/login"), "/login");
    assert_eq!(node.rewrite_location("http://other/x"), "http://other/x");
    assert_eq!(node.rewrite_cookie("a=1; Domain=example.com; Path=/"), "a=1;  Path=/");
}

#[test]
fn promotion_needs_requests_and_no_violations() {
    let mut node = Node::new(NodeConfig { promotion_threshold: 2, mode: NodeMode::Healthy, ..Default::default() });
    node.check_rate_limit("p").unwrap();
    assert!(!node.check_promotion("p"));
    node.check_rate_limit("p").unwrap();
    assert!(node.check_promotion("p"));
}

#[test]
fn test_rapid_request_detection() {
    let mut detector = BehaviorDetector::new(10);
    for _ in 0..3 {
        detector.analyze_at("session-1", "/api/test", "GET", None, 1000);
    }
    let patterns = detector.history("session-1").unwrap();
    assert!(BehaviorDetector::has_rapid_requests(patterns));
}

#[test]
fn test_scan_pattern_detection() {
    let mut detector = BehaviorDetector::new(10);
    for i in 0..6 {
        detector.analyze("session-1", &format!("/api/endpoint{}", i), "GET", None);
    }
    let patterns = detector.history("session-1").unwrap();
    assert!(BehaviorDetector::has_scan_pattern(patterns));
}

#[test]
fn test_request_validator_path_length() {
    let validator = RequestValidator::new(1024, 100);
    let long_path = "/".to_string() + &"a".repeat(150);
    assert!(validator.validate(&long_path, &vec![]).is_err());
}

#[test]
fn test_request_validator_null_bytes() {
    let validator = RequestValidator::new(1024, 200);
    let long_path = "/".to_string() + &"a".repeat(2000);
    assert_eq!(validator.validate(&long_path, &vec![]), Err(ViolationType::MalformedRequest));
}

#[test]
fn test_request_validator_valid() {
    let validator = RequestValidator::new(1024, 200);
    let headers = vec![(b"User-Agent".to_vec(), b"test".to_vec())];
    assert!(validator.validate("/api/users/123", &headers).is_ok());
}

#[test]
fn validator_refuses_nul_and_large_headers() {
    let validator = RequestValidator::new(10, 200);
    assert_eq!(validator.validate("/a\0b", &vec![]), Err(ViolationType::MalformedRequest));
    let headers = vec![(b"x-long".to_vec(), b"123456".to_vec())];
    assert_eq!(validator.validate("/", &headers), Err(ViolationType::MalformedRequest));
}

#[test]
fn detector_reports_both_findings_and_resets() {
    let mut detector = BehaviorDetector::new(10);
    let mut found = Vec::new();
    for i in 0..5 {
        found = detector.analyze_at("s", &format!("/p{}", i), "GET", Some("ua"), 7);
    }
    assert_eq!(found, vec![ViolationType::SuspiciousPattern, ViolationType::SuspiciousPattern]);
    detector.reset("s");
    assert!(detector.history("s").is_none());
}

#[test]
fn detector_window_drops_oldest() {
    let mut detector = BehaviorDetector::new(2);
    detector.analyze_at("s", "/a", "GET", None, 1);
    detector.analyze_at("s", "/b", "GET", None, 2);
    detector.analyze_at("s", "/c", "GET", None, 3);
    let h = detector.history("s").unwrap();
    assert_eq!(h.len(), 2);
    assert_eq!(h[0].path, "/b");
}

#[test]
fn suspicious_path_gives_violation_error() {
    let node = Node::new(NodeConfig::default());
    match node.validate_path("/a/../etc/passwd") {
        Err(NodeError::ViolationDetected(m)) => assert_eq!(m, "Suspicious pattern: ../"),
        other => panic!("unexpected {:?}", other.is_ok()),
    }
    assert!(node.validate_path("/index.html").is_ok());
    assert_eq!(
        NodeError::ViolationDetected("x".to_string()).message(),
        "Violation detected: x"
    );
    assert_eq!(NodeError::SessionNotFound.message(), "Session not found");
    assert_eq!(NodeError::BackendUnavailable.message(), "Backend unavailable");
}

#[test]
fn proxy_and_orchestrator_error_messages() {
    assert_eq!(ProxyError::InvalidToken.message(), "Invalid token");
    assert_eq!(ProxyError::TokenExpired.message(), "Token expired");
    assert_eq!(ProxyError::MissingToken.message(), "Missing token");
    assert_eq!(ProxyError::SessionNotFound.message(), "Session not found");
    assert_eq!(ProxyError::BackendUnavailable.message(), "Backend unavailable");
    assert_eq!(ProxyError::Forbidden.message(), "Request forbidden");
    assert_eq!(OrchestratorError::NoHealthyMirrors.message(), "No healthy mirrors available");
    assert_eq!(OrchestratorError::SpawnFailed.message(), "Failed to spawn replacement");
    assert_eq!(OrchestratorError::TorTimeout(10).message(), "Tor control command timed out after 10s");
    assert_eq!(
        OrchestratorError::TorConnectionFailed("refused".to_string()).message(),
        "Tor control connection failed: refused"
    );
}

#[test]
fn node_counts_requests_and_errors() {
    let mut node = create_test_node(NodeMode::Healthy);
    assert_eq!(node.get_metrics(), NodeMetrics::new());
    node.count_request(true);
    node.count_request(false);
    node.count_request(true);
    node.count_backend_error();
    let m = node.get_metrics();
    assert_eq!(m.requests_total, 3);
    assert_eq!(m.requests_forwarded, 2);
    assert_eq!(m.requests_blocked, 1);
    assert_eq!(m.backend_errors, 1);
    assert_eq!(m.violations_detected, 0);
    let a = node.process_request("s", "/ok", Some("99999999999"), 10);
    assert!(matches!(a, NodeAction::Reject(_)));
    assert_eq!(node.get_metrics().violations_detected, 1);
    assert!(matches!(node.process_request("s", "/ok", None, 11), NodeAction::Forward));
    assert_eq!(node.get_metrics().violations_detected, 1);
}
