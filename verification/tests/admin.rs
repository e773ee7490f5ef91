use std::hash::{Hash, Hasher};
use fortify::admin::{
    generate_auth_token, get_auth_token, u64_to_hex, AdminState, CaptchaTypeSettings, HistoryEventType, NodeInfo,
    SessionInfo, ADMIN_PASSWORD,
};
use fortify::tier::TrustTier;

fn session(id: &str) -> SessionInfo {
    SessionInfo {
        session_id: id.to_string(),
        trust_tier: "Verified".to_string(),
        request_count: 3,
        violation_count: 1,
        page_loads: 0,
        created_at: 0,
        last_activity: 0,
        browsing_history: Vec::new(),
        is_banned: false,
        demotion_count: 0,
        is_killed: false,
        current_node: String::new(),
        total_bytes: 0,
        current_mirror: String::new(),
    }
}

fn node(id: &str, addr: &str, mode: &str) -> NodeInfo {
    NodeInfo {
        id: id.to_string(),
        bind_addr: addr.to_string(),
        onion_address: None,
        mode: mode.to_string(),
        status: "online".to_string(),
        created_at: 0,
        total_requests: 0,
        active_connections: 0,
        violations_detected: 0,
    }
}

#[test]
fn history_event_labels() {
    assert_eq!(HistoryEventType::SessionKilled.icon(), "💀");
    assert_eq!(HistoryEventType::PageRequest.css_class(), "");
    assert_eq!(HistoryEventType::CaptchaVerified.css_class(), "event-success");
}

#[test]
fn captcha_type_defaults() {
    let all = CaptchaTypeSettings::all_types();
    assert_eq!(all.len(), 7);
    assert_eq!(all[1].type_key, "Emoji");
    assert_eq!(all[1].option_count, 6);
    assert_eq!(all[2].difficulty, 1);
    let other = CaptchaTypeSettings::new("Other");
    assert_eq!((other.option_count, other.difficulty, other.min_pool_size), (4, 2, 50));
}

#[test]
fn auth_token_is_hex_of_default_hash() {
    let mut h = std::collections::hash_map::DefaultHasher::new();
    ADMIN_PASSWORD.hash(&mut h);
    let expected = format!("{:x}", h.finish());
    assert_eq!(get_auth_token(), expected);
    assert_ne!(generate_auth_token("other"), expected);
    assert_eq!(u64_to_hex(255), "ff");
    assert_eq!(u64_to_hex(0), "0");
}

#[test]
fn demotions_kill_past_the_limit() {
    let mut st = AdminState::new();
    st.update_session(session("s"));
    assert!(!st.record_demotion_at("s", 2, 10));
    assert!(!st.is_killed("s"));
    assert!(!st.record_demotion_at("s", 2, 11));
    assert!(!st.is_killed("s"));
    assert_eq!(st.get_session("s").unwrap().trust_tier, "Verified");
    assert!(st.record_demotion_at("s", 2, 12));
    assert!(st.is_killed("s"));
    assert_eq!(st.get_demotion_count("s"), 3);
    let s = st.get_session("s").unwrap();
    assert_eq!(s.trust_tier, "Killed");
    assert_eq!(s.browsing_history.len(), 4);
    assert_eq!(s.browsing_history[2].path, "Demotion #3/2");
    assert_eq!(s.browsing_history[3].reason.as_deref(), Some("Exceeded max demotions limit (2)"));
    assert!(!st.record_demotion_at("missing", 2, 11));
}

#[test]
fn history_keeps_last_hundred() {
    let mut st = AdminState::new();
    st.update_session(session("s"));
    for i in 0..120u64 {
        st.record_page_load_at("s", &format!("/p{}", i), "GET", 200, i);
    }
    let s = st.get_session("s").unwrap();
    assert_eq!(s.browsing_history.len(), 100);
    assert_eq!(s.browsing_history[0].path, "/p20");
    assert_eq!(s.page_loads, 120);
    assert_eq!(s.last_activity, 119);
}

#[test]
fn bans_and_overrides() {
    let mut st = AdminState::new();
    st.update_session(session("s"));
    st.ban_session_at("s", 5);
    st.ban_session_at("s", 6);
    assert!(st.is_banned("s"));
    assert_eq!(st.get_session("s").unwrap().trust_tier, "Burned");
    st.unban_session_at("s", 7);
    assert!(!st.is_banned("s"));
    assert!(!st.get_session("s").unwrap().is_banned);

    st.set_session_tier_at("s", "Trusted", 8);
    assert_eq!(st.get_tier_override("s"), Some("Trusted".to_string()));
    let s = st.get_session("s").unwrap();
    assert_eq!(s.browsing_history.last().unwrap().reason.as_deref(), Some("Changed from Burned"));
    st.clear_tier_override("s");
    assert_eq!(st.get_tier_override("s"), None);

    st.set_session_tier_auto_at("s", "Suspicious", "too fast", 9);
    let s = st.get_session("s").unwrap();
    assert_eq!(s.browsing_history.last().unwrap().reason.as_deref(), Some("too fast (was: Trusted)"));
    st.record_violation_at("s", "scan", "details", 3, 10);
    assert_eq!(st.get_session("s").unwrap().browsing_history.last().unwrap().path, "[SEV-3] scan");
}

#[test]
fn admin_logins_last_a_day() {
    let mut st = AdminState::new();
    st.create_admin_session_at("a", 1000);
    assert!(st.is_admin_session_valid_at("a", 1000 + 86400));
    assert!(!st.is_admin_session_valid_at("a", 1001 + 86400));
    st.remove_admin_session("a");
    assert!(!st.is_admin_session_valid_at("a", 1000));
}

#[test]
fn gate_queue_drops_stale_visitors() {
    let mut st = AdminState::new();
    st.enter_gate_queue_at("a", 100);
    st.enter_gate_queue_at("b", 350);
    assert_eq!(st.get_gate_queue_count_at(400), 2);
    assert_eq!(st.get_gate_queue_count_at(401), 1);
    st.exit_gate_queue("b");
    assert_eq!(st.get_gate_queue_count_at(401), 0);
}

#[test]
fn nodes_and_suggestions() {
    let mut st = AdminState::new();
    st.update_node(node("healthy-0", "127.0.0.1:9100", "healthy"));
    st.update_node(node("healthy-1", "127.0.0.1:9105", "healthy"));
    st.update_node(node("threat-0", "127.0.0.1:8081", "threat"));
    assert_eq!(
        st.get_next_node_suggestion("healthy"),
        ("healthy-2".to_string(), "127.0.0.1:9106".to_string())
    );
    assert_eq!(
        st.get_next_node_suggestion("other"),
        ("other-0".to_string(), "127.0.0.1:8081".to_string())
    );
    st.record_node_request_at("healthy-0", 10, 1000);
    st.record_node_request_at("healthy-0", 5, 1001);
    let n = st.get_node("healthy-0").unwrap();
    assert_eq!(n.total_requests, 2);
    assert_eq!(n.active_connections, 2);
    st.release_node_connection("healthy-0");
    assert_eq!(st.get_node("healthy-0").unwrap().active_connections, 1);
    st.set_node_mode("healthy-0", "threat");
    assert_eq!(st.get_node("healthy-0").unwrap().mode, "threat");
    st.remove_node("threat-0");
    assert_eq!(st.get_nodes().len(), 2);
}

#[test]
fn mirrors_are_counted_by_address() {
    let mut st = AdminState::new();
    st.record_mirror_request_at("abcdefghijklmnop.onion", 50);
    st.record_mirror_request_at("abcdefghijklmnop.onion", 51);
    let m = st.get_mirror_by_onion("abcdefghijklmnop.onion").unwrap();
    assert_eq!(m.id, "mirror-abcdefgh");
    assert_eq!(m.total_requests, 2);
    assert_eq!(m.created_at, 50);
    st.remove_mirror("mirror-abcdefgh");
    assert!(st.get_mirrors().is_empty());
}

#[test]
fn stats_add_up() {
    let mut st = AdminState::new();
    let mut a = session("a");
    a.last_activity = 900;
    st.update_session(a);
    st.update_session(session("b"));
    st.ban_session_at("b", 1);
    st.update_node(node("h", "x:1", "healthy"));
    let stats = st.get_stats_at(1000);
    assert_eq!(stats.total_sessions, 2);
    assert_eq!(stats.active_sessions, 1);
    assert_eq!(stats.banned_sessions, 1);
    assert_eq!(stats.healthy_nodes, 1);
    assert_eq!(stats.threat_nodes, 0);
    assert_eq!(stats.total_requests, 6);
    assert_eq!(stats.total_violations, 2);
}

#[test]
fn captcha_type_setting_is_clamped() {
    let mut st = AdminState::new();
    st.update_captcha_type_setting("Emoji", false, 9, 7, 10);
    let t = &st.get_captcha_type_settings()[1];
    assert!(!t.enabled);
    assert_eq!((t.option_count, t.difficulty, t.min_pool_size), (9, 3, 10));
    st.update_captcha_type_setting("Nope", false, 1, 0, 1);
    assert_eq!(st.get_captcha_type_settings().len(), 7);
}

#[test]
fn gate_visitor_is_recorded_once() {
    let mut st = AdminState::new();
    st.track_gate_visitor_at("v1", TrustTier::Unknown, "x.onion", 100);
    let s = st.get_session("v1").unwrap();
    assert_eq!(s.trust_tier, "Unknown");
    assert_eq!(s.created_at, 100);
    assert_eq!(s.last_activity, 100);
    assert_eq!(s.current_mirror, "x.onion");
    assert_eq!(s.request_count, 0);
    assert!(s.current_node.is_empty());
    st.track_gate_visitor_at("v1", TrustTier::Suspicious, "y.onion", 200);
    let s = st.get_session("v1").unwrap();
    assert_eq!(s.trust_tier, "Unknown");
    assert_eq!(s.created_at, 100);
    assert_eq!(st.get_sessions().len(), 1);
}

#[test]
fn auth_token_is_short_lower_hex() {
    let t = get_auth_token();
    assert!(!t.is_empty() && t.len() <= 16);
    assert!(t.chars().all(|c| c.is_ascii_digit() || ('a'..='f').contains(&c)));
}
