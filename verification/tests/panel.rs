use fortify::admin::{
    window_names, AdminState, BrandingConfig, CaptchaPoolConfig, CaptchaTypeSettings, HistoryEntry, HistoryEventType, NodeInfo,
    SessionInfo,
};
use fortify::pages::{mirrors_page_body, session_page_body, settings_page_body};
use fortify::backend::{backend_request_url, forwarded_headers, proxied_method, BackendNode, HttpMethod};
use fortify::behavior::{aggregate_behavior_stats, SessionBehaviorSummary};
use fortify::daemons::{needs_restart, DaemonHealth};
use fortify::strmap::StrMap;
use fortify::format::parse_form_data;
use fortify::forms::{
    branding_from_form, captcha_pool_from_form, captcha_type_from_form, login_cookie, logout_cookie, mirror_action,
    node_action, node_from_form, orchestrator_call, orchestrator_url, password_matches, placeholder_mirror,
    placeholder_mirror_at,
    session_action, MirrorFormAction, NodeFormAction, SessionAction,
};
use fortify::gateway::{cookie_values, upgraded_session_token};
use fortify::mirror::{Mirror, MirrorState};
use fortify::node::{HeaderAction, Node, NodeConfig};
use fortify::orchestrator_api::{
    count_listing, mirror_list_html, needs_token, onion_address_of_body, route_request, stats_mirror_counts,
    token_valid, ApiRoute, BodyError,
};
use fortify::registry::{
    classify_mirror_dir, count_mirrors_on_disk, mirror_id_for, mirrors_needed, DiskEntry, MirrorDir, MirrorInfo,
    MirrorRegistry,
};
use fortify::admin::get_auth_token;
use fortify::tor::{
    add_onion_command, del_onion_command, hostname_onion, is_pow_refusal, is_service_collision, private_key_entry,
    service_id_of, control_retry_delay_ms,
};
use fortify::registry::OrchestratorError;

fn session(id: &str, count: u64, node: &str, last: u64) -> SessionInfo {
    SessionInfo {
        session_id: id.to_string(),
        trust_tier: "Verified".to_string(),
        request_count: count,
        violation_count: 0,
        page_loads: 0,
        created_at: 0,
        last_activity: last,
        browsing_history: Vec::new(),
        is_banned: false,
        demotion_count: 0,
        is_killed: false,
        current_node: node.to_string(),
        total_bytes: count * 10,
        current_mirror: String::new(),
    }
}

fn node(id: &str, addr: &str, mode: &str) -> NodeInfo {
    NodeInfo {
        id: id.to_string(),
        bind_addr: addr.to_string(),
        onion_address: None,
        mode: mode.to_string(),
        status: "pending".to_string(),
        created_at: 0,
        total_requests: 7,
        active_connections: 1,
        violations_detected: 0,
    }
}

#[test]
fn session_buttons() {
    assert_eq!(session_action("to_threat"), SessionAction::ToThreat);
    assert_eq!(session_action("to_healthy"), SessionAction::ToHealthy);
    assert_eq!(session_action("ban"), SessionAction::Ban);
    assert_eq!(session_action("nonsense"), SessionAction::Unknown);
    let mut st = AdminState::new();
    st.update_session(session("s1", 1, "", 0));
    st.ban_session_at("s1", 5);
    assert!(st.is_banned("s1"));
    st.apply_session_action_at("s1", SessionAction::ToHealthy, 9);
    assert!(!st.is_banned("s1"));
    assert_eq!(st.get_session("s1").unwrap().trust_tier, "Verified");
    st.apply_session_action_at("s1", SessionAction::ToThreat, 10);
    assert_eq!(st.get_session("s1").unwrap().trust_tier, "Suspicious");
    assert_eq!(st.get_tier_override("s1"), Some("Suspicious".to_string()));
    st.apply_session_action_at("s1", SessionAction::Delete, 11);
    assert!(st.get_session("s1").is_none());
}

#[test]
fn node_buttons_and_forms() {
    assert_eq!(node_action("add"), NodeFormAction::Add);
    assert_eq!(node_action("activate"), NodeFormAction::Activate);
    let mut st = AdminState::new();
    st.update_node(node("healthy-0", "127.0.0.1:9100", "healthy"));
    st.bring_node_online("healthy-0", Some("threat"));
    let n = st.get_node("healthy-0").unwrap();
    assert_eq!(n.mode, "threat");
    assert_eq!(n.status, "online");
    st.update_session(session("a", 1, "healthy-0", 0));
    st.update_session(session("b", 1, "other", 0));
    assert_eq!(st.session_ids_on_node("healthy-0"), vec!["a".to_string()]);

    let params = parse_form_data(b"bind_addr=127.0.0.1%3A9200&mode=threat&onion_address=%20abc.onion%20");
    let added = node_from_form(&params, &st, 77).unwrap();
    assert_eq!(added.id, "threat-1");
    assert_eq!(added.bind_addr, "127.0.0.1:9200");
    assert_eq!(added.onion_address, Some("abc.onion".to_string()));
    assert_eq!(added.status, "online");
    assert_eq!(added.created_at, 77);
    let named = node_from_form(&parse_form_data(b"bind_addr=x&node_name=%20mine%20"), &st, 0).unwrap();
    assert_eq!(named.id, "mine");
    assert_eq!(named.mode, "healthy");
    assert!(node_from_form(&parse_form_data(b"mode=threat"), &st, 0).is_none());
}

#[test]
fn mirror_buttons() {
    assert_eq!(mirror_action("create_standby"), MirrorFormAction::CreateStandby);
    assert_eq!(mirror_action("remove"), MirrorFormAction::Remove);
    let c = orchestrator_call(MirrorFormAction::Pause).unwrap();
    assert_eq!(c.path, "/mirror/pause");
    assert!(c.send_onion && c.send_token && !c.needs_success);
    assert_eq!(c.timeout_secs, 10);
    let c = orchestrator_call(MirrorFormAction::Activate).unwrap();
    assert!(!c.send_token && c.needs_success);
    assert_eq!(c.timeout_secs, 15);
    assert!(orchestrator_call(MirrorFormAction::Create).unwrap().placeholder_on_failure);
    assert!(orchestrator_call(MirrorFormAction::Remove).is_none());
    assert_eq!(orchestrator_url(8180, "/mirror/create"), "http://127.0.0.1:8180/mirror/create");
    let p = placeholder_mirror("0123456789abcdef0123", "fedcba98765432100000", 3);
    assert_eq!(p.id, "mirror-01234567");
    assert_eq!(p.onion_address, "pending-fedcba9876543210.onion");
    assert_eq!(p.status, "creating");
}

#[test]
fn settings_forms() {
    let b = branding_from_form(
        &BrandingConfig::default(),
        &parse_form_data(b"service_name=Shop&primary_color=%23112233&secondary_color=red&custom_css=%20"),
    );
    assert_eq!(b.service_name, "Shop");
    assert_eq!(b.primary_color, "#112233");
    assert_eq!(b.secondary_color, "#a68b5b");
    assert_eq!(b.custom_css, None);
    let b = branding_from_form(&b, &parse_form_data(b"custom_css=body%7B%7D"));
    assert_eq!(b.custom_css, Some("body{}".to_string()));
    assert_eq!(b.service_name, "Shop");

    let c = captcha_pool_from_form(
        CaptchaPoolConfig::default(),
        &parse_form_data(b"pool_size=+7&difficulty=0&rotation_percent=250&timeout_seconds=-1&max_attempts=9"),
    );
    assert_eq!(c.pool_size, 7);
    assert_eq!(c.difficulty, 1);
    assert_eq!(c.rotation_percent, 100);
    assert_eq!(c.timeout_seconds, 120);
    assert_eq!(c.max_attempts, 9);
    let c = captcha_pool_from_form(c, &parse_form_data(b"difficulty=300"));
    assert_eq!(c.difficulty, 1);

    assert!(captcha_type_from_form(&parse_form_data(b"enabled=1")).is_none());
    let t = captcha_type_from_form(&parse_form_data(b"type_name=Emoji&enabled=1&difficulty=x")).unwrap();
    assert_eq!(t.type_key, "Emoji");
    assert!(t.enabled);
    assert_eq!((t.option_count, t.difficulty, t.min_pool_size), (4, 2, 50));
}

#[test]
fn panel_logins() {
    let mut st = AdminState::new();
    st.create_admin_session_at("abc", 100);
    st.create_admin_session_at("def", 100);
    assert!(st.panel_session_valid_at(Some("x=1; fortify_admin_session=abc"), 200));
    assert!(!st.panel_session_valid_at(Some("fortify_admin_session=zzz; fortify_admin_session=abc"), 200));
    assert!(!st.panel_session_valid_at(None, 200));
    assert!(!st.panel_session_valid_at(Some("fortify_admin_session=abc"), 100 + 86401));
    assert_eq!(cookie_values("fortify_admin_session=abc; a=b; fortify_admin_session=def", "fortify_admin_session="), vec!["abc", "def"]);
    st.log_out("fortify_admin_session=abc; a=b; fortify_admin_session=def");
    assert!(!st.panel_session_valid_at(Some("fortify_admin_session=abc"), 200));
    assert!(!st.panel_session_valid_at(Some("fortify_admin_session=def"), 200));
    assert_eq!(login_cookie("s"), "fortify_admin_session=s; Path=/ctrl_8f7k3m9x2n4p1q6w5v0b8c; HttpOnly; Max-Age=86400");
    assert_eq!(logout_cookie(), "fortify_admin_session=; Path=/ctrl_8f7k3m9x2n4p1q6w5v0b8c; Max-Age=0");
    assert!(password_matches(&parse_form_data(b"password=pleaseletmein123")));
    assert!(!password_matches(&parse_form_data(b"password=nope")));
}

#[test]
fn traffic_stats_put_busiest_first() {
    let mut st = AdminState::new();
    st.update_session(session("a", 2, "n", 0));
    st.update_session(session("b", 9, "n", 0));
    st.update_session(session("c", 2, "n", 0));
    st.update_session(session("d", 5, "n", 0));
    st.update_node(node("n1", "x:1", "healthy"));
    let t = st.get_traffic_stats();
    let order: Vec<&str> = t.per_session.iter().map(|s| s.session_id.as_str()).collect();
    assert_eq!(order, vec!["b", "d", "a", "c"]);
    assert_eq!(t.per_session[1].total_bytes, 50);
    assert_eq!(t.per_node.len(), 1);
    assert_eq!(t.per_node[0].total_requests, 7);
}

#[test]
fn time_based_stats_windows() {
    let mut st = AdminState::new();
    st.update_node(node("n1", "x:1", "healthy"));
    st.update_session(session("a", 1, "n1", 10_000));
    st.update_session(session("b", 1, "n1", 10_000 - 5000));
    st.record_node_request_at("n1", 100, 10_000 - 1000);
    st.record_node_request_at("n2", 50, 10_000 - 100);
    let ts = st.get_time_based_stats_at(10_000);
    assert_eq!(window_names(), vec!["15min", "1hour", "4hours", "1day", "1week", "1month"]);
    assert_eq!(ts.totals[0].requests, 1);
    assert_eq!(ts.totals[0].bytes, 50);
    assert_eq!(ts.totals[0].sessions, 1);
    assert_eq!(ts.totals[1].requests, 2);
    assert_eq!(ts.totals[1].bytes, 150);
    assert_eq!(ts.totals[2].sessions, 2);
    assert_eq!(ts.per_node.len(), 1);
    assert_eq!(ts.per_node[0].windows[0].requests, 0);
    assert_eq!(ts.per_node[0].windows[1].bytes, 100);
    assert_eq!(ts.per_node[0].windows[1].sessions, 0);
}

#[test]
fn orchestrator_routes() {
    assert!(needs_token("/mirror/pause"));
    assert!(!needs_token("/mirrors"));
    assert_eq!(route_request("GET", "/health", false), ApiRoute::Health);
    assert_eq!(route_request("POST", "/mirror/create", false), ApiRoute::Unauthorized);
    assert_eq!(route_request("POST", "/mirror/create", true), ApiRoute::Create);
    assert_eq!(route_request("GET", "/mirror/create", true), ApiRoute::Forward);
    assert_eq!(route_request("GET", "/anything", false), ApiRoute::Forward);
    assert!(token_valid(Some(get_auth_token().as_str())));
    assert!(!token_valid(Some("0")));
    assert!(!token_valid(None));
    assert_eq!(onion_address_of_body(br#"{"onion_address":"abc.onion"}"#), Ok("abc.onion".to_string()));
    assert_eq!(onion_address_of_body(b"{oops"), Err(BodyError::InvalidJson));
    assert_eq!(onion_address_of_body(br#"{"onion_address":5}"#), Err(BodyError::MissingOnionAddress));
    assert_eq!(BodyError::InvalidJson.message(), "Invalid JSON");
    assert_eq!(upgraded_session_token(200, br#"{"session_token":"tok"}"#), Some("tok".to_string()));
    assert_eq!(upgraded_session_token(500, br#"{"session_token":"tok"}"#), None);
    assert_eq!(upgraded_session_token(200, br#"{}"#), None);
}

fn listed(id: &str, status: &str, pow: bool, standby: bool) -> MirrorInfo {
    MirrorInfo {
        id: id.to_string(),
        onion_address: format!("{}.onion", id),
        status: status.to_string(),
        pow_enabled: pow,
        is_standby: standby,
        file_based: false,
    }
}

#[test]
fn maintenance_page_list() {
    let ms = vec![listed("a", "active", true, false), listed("b", "paused", false, true), listed("c", "active", false, false)];
    assert_eq!(
        mirror_list_html(&ms),
        "<li><a href=\"http://a.onion\">a.onion<span class=\"pow-badge\">PoW</span></a></li>\n                <li><a href=\"http://c.onion\">c.onion</a></li>"
    );
    assert_eq!(mirror_list_html(&vec![]), "<li class=\"no-mirrors\">No active mirrors available at this time</li>");
    assert_eq!(count_listing(&ms), (2, 1, 1));
    assert_eq!(stats_mirror_counts(&ms), (2, 1));
}

#[test]
fn mirror_directories() {
    assert_eq!(classify_mirror_dir("captcha_pool", false, true, true, true), MirrorDir::NotAMirror);
    assert_eq!(classify_mirror_dir("mirror-1", true, true, true, true), MirrorDir::Initializing);
    assert_eq!(classify_mirror_dir("mirror-1", false, false, true, true), MirrorDir::Stale);
    assert_eq!(classify_mirror_dir("mirror-1", false, true, false, false), MirrorDir::Incomplete);
    assert_eq!(classify_mirror_dir("mirror-1", false, true, true, false), MirrorDir::Complete);
    assert_eq!(mirrors_needed(3, 1, 2), 1);
    assert_eq!(mirrors_needed(3, 5, 2), 0);
    let entries = vec![
        DiskEntry { name: "mirror-a".into(), is_dir: true, has_hostname: true, metadata: Some(r#"{"is_standby":true}"#.into()) },
        DiskEntry { name: "mirror-b".into(), is_dir: true, has_hostname: true, metadata: Some("not json".into()) },
        DiskEntry { name: "mirror-c".into(), is_dir: true, has_hostname: true, metadata: None },
        DiskEntry { name: "mirror-d".into(), is_dir: true, has_hostname: false, metadata: None },
        DiskEntry { name: "other".into(), is_dir: true, has_hostname: true, metadata: None },
    ];
    assert_eq!(count_mirrors_on_disk(&entries), (2, 1));
    assert_eq!(mirror_id_for(0xab), "mirror-000000ab");
}

#[test]
fn mirror_metadata() {
    let mut m = Mirror::new_at("mirror-1".into(), "/d".into(), 50);
    m.apply_metadata(false, "standby", 0, true);
    assert!(m.is_standby);
    assert_eq!(m.state, MirrorState::Paused);
    assert_eq!(m.created_at, 50);
    assert!(m.pow_enabled);
    m.set_loaded_address("x.onion".into());
    assert_eq!(m.state, MirrorState::Paused);
    let mut m = Mirror::new_at("mirror-2".into(), "/d".into(), 50);
    m.apply_metadata(false, "weird", 99, false);
    assert_eq!(m.created_at, 99);
    m.set_loaded_address("y.onion".into());
    assert_eq!(m.state, MirrorState::Active);
    assert_eq!(m.onion_address, Some("y.onion".to_string()));
}

#[test]
fn tor_commands() {
    assert_eq!(add_onion_command(None, 8080, true), "ADD_ONION NEW:ED25519-V3 Port=80,127.0.0.1:8080 Flags=Detach,PoWDefensesEnabled");
    assert_eq!(add_onion_command(Some("ED25519-V3:k"), 81, false), "ADD_ONION ED25519-V3:k Port=80,127.0.0.1:81 Flags=Detach");
    assert_eq!(del_onion_command("abc"), "DEL_ONION abc");
    assert!(is_pow_refusal(&OrchestratorError::TorConfigError("552 Unrecognized flag".into())));
    assert!(!is_pow_refusal(&OrchestratorError::TorConfigError("550 nope".into())));
    assert!(is_service_collision(&OrchestratorError::TorConfigError("550 Onion address COLLISION".into())));
    assert_eq!(hostname_onion("  abc.onion\n"), Some("abc.onion".to_string()));
    assert_eq!(hostname_onion("abc\n"), None);
    assert_eq!(hostname_onion("   "), None);
    assert_eq!(service_id_of("abc.onion"), "abc");
    assert_eq!(service_id_of("a.onionb.onion"), "ab");
    assert_eq!(private_key_entry(&[0, 255, 16]), "ED25519-V3:00ff10");
    assert_eq!(control_retry_delay_ms(0), Some(100));
    assert_eq!(control_retry_delay_ms(1), Some(200));
    assert_eq!(control_retry_delay_ms(2), None);
}

#[test]
fn node_forwarding() {
    let mut config = NodeConfig::default();
    config.backend_address = "http://abc.onion".to_string();
    let n = Node::new(config);
    assert!(n.client_plan().is_err());
    assert_eq!(n.backend_url(Some("/x?y")), "http://abc.onion/x?y");
    assert_eq!(n.backend_url(None), "http://abc.onion/");
    match n.response_header("Location", Some("http://abc.onion/next")) {
        HeaderAction::Replace(v) => assert_eq!(v, "/next"),
        _ => panic!("a location is rewritten"),
    }
    assert!(matches!(n.response_header("location", None), HeaderAction::Skip));
    match n.response_header("Set-Cookie", Some("a=b; Domain=x; Path=/")) {
        HeaderAction::Replace(v) => assert_eq!(v, "a=b;  Path=/"),
        _ => panic!("a cookie is rewritten"),
    }
    assert!(matches!(n.response_header("content-type", Some("text/html")), HeaderAction::Keep));
    let mut config = NodeConfig::default();
    config.backend_address = "http://abc.onion".to_string();
    config.socks_proxy = Some("127.0.0.1:9050".to_string());
    let plan = Node::new(config).client_plan().unwrap();
    assert_eq!(plan.socks_url, Some("socks5h://127.0.0.1:9050".to_string()));
    assert_eq!((plan.timeout_secs, plan.connect_timeout_secs), (60, 30));
    let plan = Node::new(NodeConfig::default()).client_plan().unwrap();
    assert_eq!(plan.socks_url, None);
    assert_eq!((plan.timeout_secs, plan.connect_timeout_secs), (30, 10));
}

#[test]
fn proxy_forwarding() {
    assert_eq!(proxied_method("PATCH"), HttpMethod::Patch);
    assert_eq!(proxied_method("TRACE"), HttpMethod::Get);
    assert_eq!(backend_request_url("http://b:1", None), "http://b:1/");
    let hs = vec![
        ("Connection".to_string(), Some("close".to_string())),
        ("Accept".to_string(), Some("*/*".to_string())),
        ("X-Bin".to_string(), None),
        ("Host".to_string(), Some("h".to_string())),
    ];
    assert_eq!(forwarded_headers(&hs), vec![("Accept".to_string(), "*/*".to_string())]);
}

#[test]
fn rotation_picks_oldest_due_active_mirror() {
    let mut reg = MirrorRegistry::new();
    let mut a = Mirror::new_at("a".to_string(), "/tmp/a".to_string(), 100);
    a.activate("a.onion".to_string());
    let mut b = Mirror::new_at("b".to_string(), "/tmp/b".to_string(), 50);
    b.activate("b.onion".to_string());
    let c = Mirror::new_at("c".to_string(), "/tmp/c".to_string(), 10);
    reg.register_mirror(a);
    reg.register_mirror(b);
    reg.register_mirror(c);
    assert_eq!(reg.rotation_candidate_at(1000, 500), Some("b".to_string()));
    assert_eq!(reg.rotation_candidate_at(1000, 960), None);
    assert_eq!(reg.rotation_candidate_at(1000, 920), Some("b".to_string()));
}

#[test]
fn burning_ids_in_registry_order() {
    let mut reg = MirrorRegistry::new();
    for id in ["x", "y", "z"] {
        let mut m = Mirror::new_at(id.to_string(), format!("/tmp/{}", id), 1);
        m.activate(format!("{}.onion", id));
        if id != "y" {
            m.burn();
        }
        reg.register_mirror(m);
    }
    assert_eq!(reg.burning_mirror_ids(), vec!["x".to_string(), "z".to_string()]);
}

#[test]
fn restart_only_for_unhealthy_or_dead() {
    assert!(needs_restart(DaemonHealth::Unhealthy));
    assert!(needs_restart(DaemonHealth::Dead));
    assert!(!needs_restart(DaemonHealth::Healthy));
    assert!(!needs_restart(DaemonHealth::Starting));
}

#[test]
fn initial_nodes_registered_per_backend() {
    let mut st = AdminState::new();
    let nodes = vec![
        BackendNode::new("127.0.0.1:9001".to_string(), true, 10),
        BackendNode::new("127.0.0.1:9002".to_string(), true, 10),
    ];
    let onions = vec![Some("first.onion".to_string())];
    st.register_initial_nodes_at("healthy", &nodes, &onions, 77);
    let n0 = st.get_node("healthy-0").unwrap();
    assert_eq!(n0.bind_addr, "127.0.0.1:9001");
    assert_eq!(n0.onion_address, Some("first.onion".to_string()));
    assert_eq!(n0.status, "online");
    assert_eq!(n0.created_at, 77);
    let n1 = st.get_node("healthy-1").unwrap();
    assert_eq!(n1.bind_addr, "127.0.0.1:9002");
    assert_eq!(n1.onion_address, None);
    assert!(st.get_node("healthy-2").is_none());
}

fn summary(requests: u64, violations: &[(&str, u64)], ua: bool) -> SessionBehaviorSummary {
    let mut by_type = StrMap::new();
    let mut total = 0;
    for (k, v) in violations {
        by_type.insert(k, *v);
        total += v;
    }
    SessionBehaviorSummary { requests_analyzed: requests, total_violations: total, violations_by_type: by_type, suspicious_ua_detected: ua }
}

#[test]
fn behavior_totals_over_sessions() {
    let sessions = vec![
        summary(10, &[("path", 2), ("ua", 1)], true),
        summary(5, &[("path", 3), ("enum", 0)], false),
        summary(7, &[], true),
    ];
    let agg = aggregate_behavior_stats(&sessions);
    assert_eq!(agg.sessions_analyzed, 3);
    assert_eq!(agg.total_requests_analyzed, 22);
    assert_eq!(agg.total_violations, 6);
    assert_eq!(agg.sessions_with_suspicious_ua, 2);
    assert_eq!(agg.violations_by_type.get("path"), Some(&5));
    assert_eq!(agg.violations_by_type.get("ua"), Some(&1));
    assert_eq!(agg.violations_by_type.get("enum"), Some(&0));
    assert_eq!(agg.violations_by_type.get("payload"), None);
    assert_eq!(agg.violations_by_type.len(), 3);
}

#[test]
fn behavior_totals_of_nothing() {
    let agg = aggregate_behavior_stats(&Vec::new());
    assert_eq!(agg.sessions_analyzed, 0);
    assert_eq!(agg.total_requests_analyzed, 0);
    assert_eq!(agg.violations_by_type.len(), 0);
}

#[test]
fn resume_after_pause_restores_active_mirror() {
    let mut reg = MirrorRegistry::new();
    let mut m = Mirror::new_at("m1".to_string(), "/tmp/m1".to_string(), 5);
    m.activate("aaa.onion".to_string());
    reg.register_mirror(m);
    assert!(reg.pause_mirror("aaa.onion").is_ok());
    assert!(reg.is_mirror_paused("aaa.onion"));
    assert!(reg.resume_mirror("aaa.onion").is_ok());
    assert!(!reg.is_mirror_paused("aaa.onion"));
    assert_eq!(reg.get_mirror("m1").unwrap().state, MirrorState::Active);
    assert!(reg.resume_mirror("aaa.onion").is_err());
}

#[test]
fn settings_page_escapes_only_the_branding_texts() {
    let mut b = BrandingConfig::default();
    b.service_name = "A<b>&\"c".to_string();
    b.primary_color = "#1<2".to_string();
    b.custom_css = Some("body { color: red; }".to_string());
    let c = CaptchaPoolConfig::default();
    let types = vec![CaptchaTypeSettings {
        type_key: "Emoji".to_string(),
        enabled: true,
        option_count: 6,
        difficulty: 2,
        min_pool_size: 50,
    }];
    let html = settings_page_body(&b, &c, &types);
    assert!(html.starts_with("\n        <h2>Settings</h2>\n"));
    assert!(html.contains("<a href=\"/ctrl_8f7k3m9x2n4p1q6w5v0b8c/tutorial\""));
    assert!(html.contains("<form method=\"POST\" action=\"/ctrl_8f7k3m9x2n4p1q6w5v0b8c/settings/branding\">"));
    assert!(html.contains("name=\"service_name\" value=\"A&lt;b&gt;&amp;&quot;c\""));
    assert!(html.contains("name=\"primary_color_picker\" value=\"#1<2\""));
    assert!(html.contains("name=\"primary_color\" value=\"#1<2\""));
    assert!(html.contains("placeholder=\"/* Additional CSS rules */\">body { color: red; }</textarea>"));
    assert!(html.contains(&format!("name=\"pool_size\" value=\"{}\" min=\"50\"", c.pool_size)));
    assert!(html.contains("<input type=\"hidden\" name=\"type_name\" value=\"Emoji\">"));
    assert!(html.contains("<input type=\"checkbox\" name=\"enabled\" value=\"1\" checked style="));
    assert!(html.contains("<strong style=\"flex: 1; color: var(--text-primary);\">Emoji</strong>"));
    assert!(html.contains("<span style=\"color: var(--sage); font-size: 0.85em;\">ENABLED</span>"));
    assert!(html.contains("name=\"option_count\" value=\"6\""));
    assert!(html.contains("action=\"/ctrl_8f7k3m9x2n4p1q6w5v0b8c/config/reload\""));
    assert!(!html.contains("/settings/behavior\""));
    assert!(!html.contains("/settings/captcha\""));
    let off = CaptchaTypeSettings {
        type_key: "Emoji".to_string(),
        enabled: false,
        option_count: 6,
        difficulty: 2,
        min_pool_size: 50,
    };
    let html = settings_page_body(&BrandingConfig::default(), &c, &vec![off]);
    assert!(html.contains("<span style=\"color: var(--crimson); font-size: 0.85em;\">DISABLED</span>"));
}

#[test]
fn session_page_lists_history_newest_first() {
    let mut s = session("abcdefghijklmnop", 3, "healthy-0", 100);
    s.created_at = 40;
    s.browsing_history.push(HistoryEntry {
        timestamp: 50,
        event_type: HistoryEventType::PageRequest,
        path: "/a?x=1".to_string(),
        method: "GET".to_string(),
        status_code: 200,
        reason: None,
    });
    s.browsing_history.push(HistoryEntry {
        timestamp: 90,
        event_type: HistoryEventType::SessionBanned,
        path: "Banned".to_string(),
        method: "admin".to_string(),
        status_code: 0,
        reason: Some("abuse".to_string()),
    });
    let html = session_page_body(&s, "30 B", 100);
    assert!(html.starts_with("\n        <h2>Session: abcdefghijkl</h2>\n"));
    assert!(html.contains("<tr><td>Session ID</td><td><code>abcdefghijklmnop</code></td></tr>"));
    assert!(html.contains("<tr><td>Trust Tier</td><td class=\"tier-verified\">Verified</td></tr>"));
    assert!(html.contains("<tr><td>Current Node</td><td><span class='mode-healthy'>healthy-0</span></td></tr>"));
    assert!(html.contains("<span style='color: var(--text-muted);'>Direct / Local</span>"));
    assert!(html.contains("<tr><td>Total Traffic</td><td>30 B</td></tr>"));
    assert!(html.contains("<tr><td>Created</td><td>1m ago</td></tr>"));
    assert!(html.contains("<tr><td>Killed</td><td>No</td></tr>"));
    assert!(html.contains("No behavioral data collected for this session yet."));
    let event = html.find("<div class=\"history-item event-danger\">").unwrap();
    let request = html.find("<span class=\"status-online\">200</span>").unwrap();
    assert!(event < request);
    assert!(html.contains("<strong>[admin]</strong> Banned"));
    assert!(html.contains(">\u{21b3} abuse</div>"));
    assert!(html.contains("<strong>GET</strong> /a?x=1"));
    s.browsing_history.clear();
    s.current_node = "threat-1".to_string();
    s.current_mirror = "abcdefgh.onion".to_string();
    s.is_killed = true;
    let html = session_page_body(&s, "0 B", 100);
    assert!(html.contains("<p>No history recorded.</p>"));
    assert!(html.contains("<span class='mode-threat'>threat-1</span>"));
    assert!(html.contains("<code style='font-size: 0.9em;'>abcde...</code>"));
    assert!(html.contains("YES - REPEAT OFFENDER"));
}

#[test]
fn mirrors_page_lists_orchestrator_mirrors() {
    let m = |id: &str, onion: &str, status: &str, pow: bool, standby: bool| {
        (id.to_string(), onion.to_string(), status.to_string(), pow, standby)
    };
    let listed = vec![
        m("m1", "a.onion", "active", true, false),
        m("m2", "b.onion", "paused", false, true),
        m("m3", "c.onion", "paused", false, false),
        m("m4", "d.onion", "burning", false, false),
    ];
    let recorded = vec![fortify::admin::MirrorInfo {
        id: "p1".to_string(),
        onion_address: "a.onion".to_string(),
        status: "active".to_string(),
        created_at: 40,
        total_requests: 1200,
    }];
    let html = mirrors_page_body(&listed, &recorded, &vec!["1.2K".to_string()], 100);
    assert!(html.starts_with("\n        <h2>Mirror Management</h2>\n"));
    assert!(html.contains("<div class=\"stat-value\">1</div>\n                <div class=\"stat-label\">Active Mirrors</div>"));
    assert!(html.contains("color: var(--gold-muted);\">4</div>"));
    assert!(html.contains("<td><code>a.onion</code></td>\n                <td class=\"status-online\">\u{1f7e2} Active<span"));
    assert!(html.contains("<td>1m</td>\n                <td>1.2K</td>"));
    assert!(html.contains("<a href=\"http://a.onion\" target=\"_blank\""));
    assert!(html.contains("<td class=\"status-threat\">\u{23f8}\u{fe0f} Standby<span"));
    assert!(html.contains("<input type=\"hidden\" name=\"action\" value=\"activate\">"));
    assert!(html.contains("<td class=\"status-threat\">\u{23f8}\u{fe0f} Paused</td>"));
    assert!(html.contains("<input type=\"hidden\" name=\"action\" value=\"resume\">"));
    assert!(html.contains("<td class=\"status-unknown\">burning</td>\n                <td>-</td>\n                <td>0</td>"));
    let empty = mirrors_page_body(&Vec::new(), &Vec::new(), &Vec::new(), 100);
    assert!(empty.contains("No mirrors found. Orchestrator may still be starting up..."));
}

#[test]
fn panel_ids_are_hash_then_time_in_hex() {
    let id = fortify::admin::uuid_v4_at(255, 7);
    assert_eq!(id.len(), 32);
    assert!(id.ends_with("00000000000000ff"));
    assert!(id.chars().all(|c| c.is_ascii_hexdigit() && !c.is_ascii_uppercase()));
    assert_eq!(id, fortify::admin::uuid_v4_at(255, 7));
    let m = placeholder_mirror_at(255, 7);
    assert_eq!(m.id, format!("mirror-{}", &id[..8]));
    assert_eq!(m.onion_address, format!("pending-{}.onion", &id[..16]));
    assert_eq!(m.status, "creating");
    assert_eq!(m.created_at, 255);
    assert_eq!(m.total_requests, 0);
}
