use fortify::backend::BackpressureController;
use fortify::captcha_image::{generate_captcha_image, render_captcha_image};
use fortify::captcha_pool::{generate_single_at, CaptchaPoolManager, CaptchaPregenConfig, PregenCaptcha, PregenStep};
use fortify::daemons::{
    daemon_torrc, join_path, CoreLayoutConfig, CoreRole, DaemonError, DaemonHealth, MultiDaemonConfig,
    MultiDaemonManager, TorDaemon,
};
use fortify::glyphs::get_char_pattern;
use fortify::mirror::{age_rotation_check, request_rotation_check, time_until_rotation_for, RotationStrategy};
use fortify::tor::TorService;

fn three_daemons() -> MultiDaemonManager {
    let mut config = MultiDaemonConfig::default();
    config.daemons_per_vps = 3;
    let mut m = MultiDaemonManager::with_cores(config, "/var/lib/tor".to_string(), 2);
    m.initialize_daemons_at(1000);
    m
}

fn make_healthy(m: &mut MultiDaemonManager, id: usize) {
    assert!(m.record_started(id, 100 + id as u32));
    assert_eq!(m.record_health_check(id, true, false), DaemonHealth::Healthy);
}

#[test]
fn daemons_get_ports_cores_and_directories() {
    let m = three_daemons();
    assert_eq!(m.daemon_count(), 3);
    let ds = m.get_daemon_statuses();
    assert_eq!(ds.len(), 3);
    assert_eq!(ds[2].id, 2);
    assert_eq!(ds[2].cpu_core, Some(0));
    assert_eq!(ds[1].cpu_core, Some(1));
    assert_eq!(ds[2].socks_port, 9052);
    assert_eq!(ds[2].control_port, 9053);
    assert_eq!(ds[2].data_dir, "/var/lib/tor/daemon_2");
    assert_eq!(ds[0].health, DaemonHealth::Starting);
    assert_eq!(ds[0].started_at, 1000);
}

#[test]
fn daemon_count_follows_cores_when_unset() {
    let m = MultiDaemonManager::with_cores(MultiDaemonConfig::default(), "/t/".to_string(), 4);
    assert_eq!(m.daemon_count(), 4);
}

#[test]
fn unpinned_daemon_has_no_core() {
    let mut config = MultiDaemonConfig::default();
    config.cpu_affinity = false;
    let d = TorDaemon::new_at(5, &config, "/t/", 4, 7);
    assert_eq!(d.cpu_core, None);
    assert_eq!(d.data_dir, "/t/daemon_5");
    assert_eq!(d.socks_port, 9055);
}

#[test]
fn mirrors_go_to_the_least_loaded_healthy_daemon() {
    let mut m = three_daemons();
    assert_eq!(m.assign_mirror("m0"), None);
    make_healthy(&mut m, 1);
    make_healthy(&mut m, 2);
    assert_eq!(m.assign_mirror("m1"), Some(1));
    assert_eq!(m.assign_mirror("m2"), Some(2));
    assert_eq!(m.assign_mirror("m3"), Some(1));
    let d = m.get_daemon_for_mirror("m3").unwrap();
    assert_eq!(d.id, 1);
    assert_eq!(d.assigned_mirrors, vec!["m1".to_string(), "m3".to_string()]);
    assert!(!d.can_accept_mirrors(2));
    assert!(d.can_accept_mirrors(3));

    m.unassign_mirror("m1");
    assert!(m.get_daemon_for_mirror("m1").is_none());
    assert_eq!(m.get_daemon_for_mirror("m3").unwrap().assigned_mirrors, vec!["m3".to_string()]);
}

#[test]
fn health_checks_degrade_then_fail() {
    let mut m = three_daemons();
    assert_eq!(m.health_probe_target(0), None);
    assert_eq!(m.record_health_check(0, false, true), DaemonHealth::Dead);
    assert!(m.record_started(0, 42));
    assert_eq!(m.health_probe_target(0), Some((42, 9051)));
    assert_eq!(m.record_health_check(0, false, true), DaemonHealth::Degraded);
    assert_eq!(m.record_health_check(0, false, true), DaemonHealth::Degraded);
    assert_eq!(m.record_health_check(0, false, true), DaemonHealth::Unhealthy);
    assert_eq!(m.record_health_check(0, true, false), DaemonHealth::Healthy);
    assert_eq!(m.get_daemon_statuses()[0].health_failures, 0);
    assert_eq!(m.record_health_check(0, false, false), DaemonHealth::Dead);
    assert_eq!(m.health_probe_target(0), None);
    assert_eq!(m.record_health_check(9, true, true), DaemonHealth::Dead);
}

#[test]
fn stopping_daemons() {
    let mut m = three_daemons();
    assert!(m.record_started(1, 77));
    assert_eq!(m.stop_daemon(0), Ok(None));
    assert_eq!(m.stop_daemon(5), Err(DaemonError::NotFound(5)));
    assert_eq!(DaemonError::NotFound(5).message(), "Daemon 5 not found");
    assert!(m.record_started(2, 78));
    assert_eq!(m.stop_all(), vec![77, 78]);
    assert_eq!(m.get_daemon_statuses()[1].health, DaemonHealth::Dead);
    assert_eq!(m.get_daemon_statuses()[1].pid, None);
}

#[test]
fn launch_plan_pins_to_the_core() {
    let m = three_daemons();
    let p = m.launch_plan(1).unwrap();
    assert_eq!(p.program, "taskset");
    assert_eq!(p.args, vec!["-c", "1", "tor", "-f", "/var/lib/tor/daemon_1/torrc"]);
    assert_eq!(p.data_dir, "/var/lib/tor/daemon_1");
    assert_eq!(
        p.torrc,
        "# Fortify Multi-Daemon Tor Configuration (daemon 1)\nSocksPort 9051\nControlPort 9052\nDataDirectory /var/lib/tor/daemon_1\nLog notice file /var/lib/tor/daemon_1/notice.log\nCookieAuthentication 1\n"
    );
    assert!(m.launch_plan(3).is_err());
}

#[test]
fn torrc_and_paths() {
    assert_eq!(join_path("a", "b"), "a/b");
    assert_eq!(join_path("a/", "b"), "a/b");
    assert_eq!(join_path("", "b"), "b");
    assert!(daemon_torrc(0, 1, 2, "/d").starts_with("# Fortify Multi-Daemon Tor Configuration (daemon 0)\nSocksPort 1\n"));
}

#[test]
fn default_core_layout() {
    let layout = CoreLayoutConfig::default();
    assert_eq!(layout.core_assignments.len(), 4);
    match &layout.core_assignments[1].role {
        CoreRole::Primary { mirror, standby, healthy_nodes } => {
            assert_eq!(mirror, "mirror-b");
            assert_eq!(standby.as_deref(), Some("standby-c"));
            assert_eq!(healthy_nodes, &vec![5, 6, 7, 8, 9]);
        }
        _ => panic!("core 1 is a primary core"),
    }
    assert!(matches!(layout.core_assignments[2].role, CoreRole::Flex));
    match &layout.core_assignments[3].role {
        CoreRole::Threat { threat_nodes } => assert_eq!(threat_nodes, &vec![0, 1, 2]),
        _ => panic!("core 3 is a threat core"),
    }
}

fn captcha(id: &str, at: u64) -> PregenCaptcha {
    PregenCaptcha { id: id.to_string(), answer: "ABCDEF".to_string(), image_data: vec![], generated_at: at, difficulty: 2 }
}

#[test]
fn pool_is_taken_oldest_first_and_capped() {
    let mut config = CaptchaPregenConfig::default();
    config.max_pool_size = 2;
    config.min_pool_size = 2;
    let mut pool = CaptchaPoolManager::new_at(config, "/tmp/pool".to_string(), 0);
    assert!(pool.needs_refill());
    assert!(!pool.add_captcha(captcha("a", 1)));
    pool.add_captcha(captcha("b", 2));
    pool.add_captcha(captcha("c", 3));
    assert_eq!(pool.pool_size(), 2);
    assert_eq!(pool.total_generated, 2);
    assert!(!pool.needs_refill());
    assert_eq!(pool.take_captcha().unwrap().id, "a");
    assert_eq!(pool.take_captcha().unwrap().id, "b");
    assert!(pool.take_captcha().is_none());
    assert_eq!(pool.total_served, 2);
}

#[test]
fn every_fiftieth_captcha_asks_for_a_save() {
    let mut pool = CaptchaPoolManager::new_at(CaptchaPregenConfig::default(), "/tmp/pool".to_string(), 0);
    let mut saves = 0;
    for i in 0..100u64 {
        if pool.add_captcha(captcha("x", i)) {
            saves += 1;
        }
    }
    assert_eq!(saves, 2);
}

#[test]
fn rotation_drops_the_oldest_quarter() {
    let mut pool = CaptchaPoolManager::new_at(CaptchaPregenConfig::default(), "/tmp/pool".to_string(), 0);
    for i in 0..10u64 {
        pool.add_captcha(captcha(&i.to_string(), i));
    }
    assert!(!pool.rotation_due_at(10 * 86400 - 1));
    assert!(pool.rotation_due_at(10 * 86400));
    pool.rotate_pool_at(500);
    assert_eq!(pool.pool_size(), 10);
    assert_eq!(pool.total_expired, 2);
    assert_eq!(pool.total_generated, 12);
    assert_eq!(pool.last_rotation, 500);
    assert_eq!(pool.pool[0].generated_at, 2);
    assert_eq!(pool.pool[8].generated_at, 500);
    assert_eq!(pool.pool[9].generated_at, 500);
    let st = pool.stats_at(600);
    assert_eq!(st.current_size, 10);
    assert_eq!(st.oldest_age_seconds, 598);
    assert_eq!(st.newest_age_seconds, 100);
}

#[test]
fn loading_keeps_only_fresh_captchas() {
    let mut pool = CaptchaPoolManager::new_at(CaptchaPregenConfig::default(), "/tmp/pool".to_string(), 0);
    let now = 20 * 86400;
    pool.load_entries_at(vec![captcha("old", 0), captcha("new", now - 5), captcha("future", now + 5)], now);
    assert_eq!(pool.pool_size(), 1);
    assert_eq!(pool.take_captcha().unwrap().id, "new");
}

#[test]
fn pregen_steps() {
    let pool = CaptchaPoolManager::new_at(CaptchaPregenConfig::default(), "/tmp/pool".to_string(), 0);
    assert_eq!(pool.pregen_step(1000), PregenStep::Full);
    assert_eq!(pool.pregen_step(499), PregenStep::Generate);
    assert_eq!(pool.pregen_step(700), PregenStep::Idle);
    assert!(pool.reached_target(499, 509));
    assert!(!pool.reached_target(500, 510));
}

#[test]
fn generated_captcha_has_answer_id_and_picture() {
    let c = generate_single_at(1234);
    assert_eq!(c.answer.len(), 6);
    assert!(c.answer.chars().all(|ch| "ABCDEFGHJKLMNPQRSTUVWXYZ23456789".contains(ch)));
    assert_eq!(c.id.len(), 32);
    assert!(c.id.chars().all(|ch| ch.is_ascii_hexdigit() && !ch.is_ascii_uppercase()));
    assert_eq!(c.generated_at, 1234);
    assert_eq!(c.difficulty, 2);
    assert_eq!(c.image_data.len(), 90054);
    let pool = CaptchaPoolManager::new_at(CaptchaPregenConfig::default(), "/tmp/pool".to_string(), 0);
    assert_eq!(pool.generate_batch().len(), 10);
}

#[test]
fn captcha_picture_layout() {
    let img = render_captcha_image("A", &vec![(5, 7, 1)], &vec![0]);
    assert_eq!(img.len(), 90054);
    assert_eq!(&img[0..2], b"BM");
    assert_eq!(&img[2..6], &90054u32.to_le_bytes());
    assert_eq!(&img[18..22], &300u32.to_le_bytes());
    assert_eq!(&img[22..26], &100u32.to_le_bytes());
    // Pixel (0, 0) is background; it is stored in the last row.
    let at = |x: usize, y: usize| 54 + (99 - y) * 900 + x * 3;
    assert_eq!(&img[at(0, 0)..at(0, 0) + 3], &[0x20, 0x05, 0x15]);
    // The noise dot, purple.
    assert_eq!(&img[at(5, 7)..at(5, 7) + 3], &[0x80, 0x00, 0x80]);
    // "A" starts at x = 140, y = 36; its top row is 01110.
    assert_eq!(&img[at(140, 36)..at(140, 36) + 3], &[0x20, 0x05, 0x15]);
    assert_eq!(&img[at(144, 36)..at(144, 36) + 3], &[0x00, 0xff, 0x00]);
    assert_eq!(&img[at(147, 39)..at(147, 39) + 3], &[0x00, 0xff, 0x00]);
    // A shifted letter moves down.
    let shifted = render_captcha_image("A", &vec![], &vec![2]);
    assert_eq!(&shifted[at(144, 36)..at(144, 36) + 3], &[0x20, 0x05, 0x15]);
    assert_eq!(&shifted[at(144, 38)..at(144, 38) + 3], &[0x00, 0xff, 0x00]);
    assert!(render_captcha_image("", &vec![], &vec![]).is_empty());
    assert_eq!(generate_captcha_image("XY").len(), 90054);
    assert!(generate_captcha_image("").is_empty());
}

#[test]
fn glyphs_ignore_case() {
    assert_eq!(get_char_pattern('a'), get_char_pattern('A'));
    assert_eq!(get_char_pattern('?'), [0; 7]);
    assert_eq!(get_char_pattern('7')[0], 0b11111);
}

#[test]
fn rotation_checks() {
    let (due, reason) = age_rotation_check(150, 100);
    assert!(due);
    assert!(reason.contains("age"));
    assert_eq!(reason, "Mirror age 150s exceeds maximum 100s");
    assert_eq!(age_rotation_check(99, 100), (false, String::new()));
    let (due, reason) = request_rotation_check(150, 100);
    assert!(due);
    assert!(reason.contains("Request count"));
    assert_eq!(time_until_rotation_for(RotationStrategy::AgeBased, 0, 100), Some(100));
    assert_eq!(time_until_rotation_for(RotationStrategy::AgeBased, 130, 100), Some(0));
    assert_eq!(time_until_rotation_for(RotationStrategy::RiskBased, 0, 100), None);
}

#[test]
fn parse_service_id_lines() {
    let lines = vec!["250-ServiceID=testserviceid".to_string(), "250 OK".to_string()];
    let id = TorService::extract_service_id(&lines).unwrap();
    assert_eq!(id, "testserviceid");
}

#[test]
fn placeholder_onion_address_shape() {
    let t = TorService::new(None, "/tmp".to_string());
    let onion = t.random_onion();
    assert!(onion.ends_with(".onion"));
    assert_eq!(onion.len(), 62);
}

#[test]
fn guard_gives_its_slot_back() {
    let mut c = BackpressureController::new(1, 0);
    let g = c.try_acquire().unwrap();
    assert!(c.is_at_capacity());
    g.release(&mut c);
    assert_eq!(c.active_count(), 0);
}

#[test]
fn test_age_based_rotation() {
    let mut mirror = fortify::mirror::Mirror::new("test".into(), "/tmp".into());
    mirror.created_at = mirror.created_at - 150;
    let (should_rotate, reason) = age_rotation_check(mirror.age_seconds(), 100);
    assert!(should_rotate);
    assert!(reason.contains("age"));
}

#[test]
fn test_request_based_rotation() {
    let requests_total: u64 = 150;
    let (should_rotate, reason) = request_rotation_check(requests_total, 100);
    assert!(should_rotate);
    assert!(reason.contains("Request count"));
}

#[test]
fn test_time_until_rotation() {
    let mirror = fortify::mirror::Mirror::new("test".into(), "/tmp".into());
    let time_left = time_until_rotation_for(RotationStrategy::AgeBased, mirror.age_seconds(), 100);
    assert!(time_left.is_some());
    assert!(time_left.unwrap() <= 100);
}

#[test]
fn pool_counters_wrap_like_atomics() {
    let mut pool = CaptchaPoolManager::new_at(CaptchaPregenConfig::default(), "/tmp/pool".to_string(), 0);
    pool.total_generated = u64::MAX;
    pool.total_served = u64::MAX;
    let c = generate_single_at(7);
    pool.add_captcha(c);
    assert_eq!(pool.total_generated, 0);
    assert!(pool.take_captcha().is_some());
    assert_eq!(pool.total_served, 0);
    assert_eq!(pool.pool_size(), 0);
}
