use fortify::mirror::{Mirror, MirrorState, RestorationPhase, RetirementInfo, RetirementReason, ResurrectionInfo};
use fortify::orchestrator_api::{health_status, listed_as_paused};
use fortify::registry::{older_than_30s, temp_entries_to_remove, Listing, MirrorRegistry, OrchestratorError};
use fortify::scaling::{
    default_vanity_timeout, AutoScalingConfig, ResurrectionConfig, RetirementConfig, SelfCleaningConfig, SpawnRateLimiter,
};

fn mirror(id: &str, onion: &str, now: u64) -> Mirror {
    let mut m = Mirror::new_at(id.to_string(), format!("/tmp/{}", id), now);
    m.activate(onion.to_string());
    m
}

#[test]
fn test_mirror_state_transitions() {
    let mut mirror = Mirror::new("test-1".into(), "/tmp".into());

    assert_eq!(mirror.state, MirrorState::Spawning);
    assert!(!mirror.state.can_serve_traffic());

    mirror.activate("test.onion".into());
    assert_eq!(mirror.state, MirrorState::Active);
    assert!(mirror.state.can_serve_traffic());

    mirror.burn();
    assert_eq!(mirror.state, MirrorState::Burning);
    assert!(!mirror.state.can_serve_traffic());

    mirror.complete_burn();
    assert_eq!(mirror.state, MirrorState::Burned);
}

#[test]
fn phases_and_visibility() {
    assert_eq!(RestorationPhase::Phase1.visibility_percent(), 20);
    assert_eq!(RestorationPhase::Phase1.next(), Some(RestorationPhase::Phase2));
    assert_eq!(RestorationPhase::Phase3.next(), None);
    assert_eq!(MirrorState::Dormant.as_str(), "dormant");
    assert!(MirrorState::Retiring.visible_in_discovery());
    assert!(!MirrorState::Paused.visible_in_discovery());
    assert!(MirrorState::Burned.should_replace());
    assert!(MirrorState::Restoring.is_transitional());
}

#[test]
fn retirement_timetable() {
    let info = RetirementInfo::new_at(RetirementReason::Manual, 3600, 72, 1000);
    assert_eq!(info.drain_ends_at, 4600);
    assert_eq!(info.page_expires_at, 1000 + 72 * 3600);
    assert!(info.is_draining_at(4599));
    assert!(!info.is_draining_at(4600));
    assert!(info.page_expired_at(1000 + 72 * 3600));
    assert!(!info.allow_new_sessions);
}

#[test]
fn resurrection_bookkeeping() {
    let mut info = ResurrectionInfo::new_at(10);
    info.record_connection_attempt();
    info.record_connection_attempt();
    assert_eq!(info.connection_attempts, 2);
    info.reset_evaluation_at(20);
    assert_eq!(info.connection_attempts, 0);
    assert_eq!(info.last_evaluation_at, Some(20));
    assert!(!info.advance_phase());
    info.start_restoration_at(30);
    assert!(info.advance_phase());
    assert!(info.advance_phase());
    assert!(!info.advance_phase());
    assert!(info.is_fully_restored_at(100, 130));
    assert!(!info.is_fully_restored_at(100, 129));
    info.abort_restoration_at(200);
    assert_eq!(info.restoration_phase, None);
    assert_eq!(info.restoration_abort_count, 1);
    assert_eq!(info.dormant_since, 200);
}

#[test]
fn restoring_mirror_admits_a_share() {
    let mut m = mirror("m", "a.onion", 0);
    m.go_dormant_at(5);
    assert!(!m.should_accept_connection(0));
    m.begin_restoration_at(6);
    assert!(m.should_accept_connection(20));
    assert!(!m.should_accept_connection(21));
    m.complete_restoration();
    assert!(m.should_accept_connection(100));
    m.permanent_destroy();
    assert!(!m.should_accept_connection(0));
}

#[test]
fn registry_admin_actions() {
    let mut reg = MirrorRegistry::new();
    reg.register_mirror(mirror("m1", "a.onion", 0));
    reg.register_mirror(mirror("m2", "b.onion", 0));

    assert!(reg.pause_mirror("a.onion").is_ok());
    assert!(reg.is_mirror_paused("a.onion"));
    assert!(matches!(reg.pause_mirror("zz.onion"), Err(OrchestratorError::MirrorNotFound(s)) if s == "zz.onion"));
    assert!(reg.resume_mirror("a.onion").is_ok());
    assert!(matches!(reg.resume_mirror("a.onion"), Err(OrchestratorError::MirrorNotPaused)));

    let cfg = RetirementConfig::default();
    assert!(reg.retire_mirror_at("b.onion", RetirementReason::Manual, &cfg, 100).is_ok());
    assert_eq!(reg.get_mirror("m2").unwrap().state, MirrorState::Retiring);
    assert!(reg.retire_mirror_at("a.onion", RetirementReason::Compromised, &cfg, 100).is_ok());
    assert_eq!(reg.get_mirror("m1").unwrap().state, MirrorState::Burned);
    assert!(matches!(reg.pause_mirror("a.onion"), Err(OrchestratorError::MirrorBurned)));
    assert_eq!(OrchestratorError::MirrorBurned.message(), "Mirror already burned");
    assert_eq!(OrchestratorError::TorTimeout(10).message(), "Tor control command timed out after 10s");
}

#[test]
fn registry_listings() {
    let mut reg = MirrorRegistry::new();
    reg.register_mirror(mirror("m1", "a.onion", 0));
    let mut standby = Mirror::new_at("m2".into(), "/tmp/m2".into(), 0);
    standby.activate_as_standby("b.onion".into());
    reg.register_mirror(standby);

    assert_eq!(reg.get_active_mirrors(), vec!["a.onion".to_string()]);
    assert_eq!(reg.get_discovery_mirrors().len(), 1);
    assert_eq!(reg.get_all_mirrors_extended().len(), 2);
    let all = reg.get_all_mirrors();
    assert_eq!(all[1], ("m2".to_string(), "b.onion".to_string(), "paused".to_string()));
    assert_eq!(reg.list(Listing::Dormant).len(), 0);
    assert!(reg.activate_standby("b.onion").is_ok());
    assert!(!reg.get_mirror("m2").unwrap().is_standby);
}

#[test]
fn retirement_and_resurrection_passes() {
    let mut reg = MirrorRegistry::new();
    reg.register_mirror(mirror("m1", "a.onion", 0));
    let cfg = RetirementConfig::default();
    reg.retire_mirror_at("a.onion", RetirementReason::Proactive, &cfg, 0).unwrap();
    reg.retirement_tick(72 * 3600 - 1);
    assert_eq!(reg.get_mirror("m1").unwrap().state, MirrorState::Retiring);
    reg.retirement_tick(72 * 3600);
    assert_eq!(reg.get_mirror("m1").unwrap().state, MirrorState::Dormant);

    let rc = ResurrectionConfig::default();
    let t0 = 72 * 3600;
    assert!(reg.clock_consistent(t0 + 900));
    reg.resurrection_tick(t0 + 899, &rc);
    assert_eq!(reg.get_mirror("m1").unwrap().state, MirrorState::Dormant);
    reg.resurrection_tick(t0 + 900, &rc);
    assert_eq!(reg.get_mirror("m1").unwrap().state, MirrorState::Restoring);
    reg.resurrection_tick(t0 + 900 + 2400, &rc);
    let info = reg.get_mirror("m1").unwrap().resurrection_info.unwrap();
    assert_eq!(info.restoration_phase, Some(RestorationPhase::Phase2));
    reg.resurrection_tick(t0 + 900 + 4800, &rc);
    reg.resurrection_tick(t0 + 900 + 7200, &rc);
    assert_eq!(reg.get_mirror("m1").unwrap().state, MirrorState::Active);
}

#[test]
fn busy_dormant_mirror_stays_dormant_then_expires() {
    let mut reg = MirrorRegistry::new();
    let mut m = mirror("m1", "a.onion", 0);
    m.go_dormant_at(0);
    if let Some(info) = m.resurrection_info.as_mut() {
        info.connection_attempts = 60;
    }
    reg.register_mirror(m);
    let rc = ResurrectionConfig::default();
    reg.resurrection_tick(1000, &rc);
    let m = reg.get_mirror("m1").unwrap();
    assert_eq!(m.state, MirrorState::Dormant);
    assert_eq!(m.resurrection_info.unwrap().connection_attempts, 0);

    let mut old = MirrorRegistry::new();
    let mut m = mirror("m2", "b.onion", 0);
    m.go_dormant_at(0);
    if let Some(info) = m.resurrection_info.as_mut() {
        info.last_evaluation_at = Some(90 * 86400 - 10);
    }
    old.register_mirror(m);
    old.resurrection_tick(90 * 86400, &rc);
    assert_eq!(old.get_mirror("m2").unwrap().state, MirrorState::Burned);
}

#[test]
fn cleanup_removes_old_burned_mirrors() {
    let mut reg = MirrorRegistry::new();
    let mut m = mirror("m1", "a.onion", 0);
    m.complete_burn();
    m.last_request_time = Some(0);
    reg.register_mirror(m);
    reg.register_mirror(mirror("m2", "b.onion", 0));
    let c = SelfCleaningConfig::default();
    assert!(reg.self_cleaning_tick(6 * 86400, &c).is_empty());
    assert_eq!(reg.self_cleaning_tick(7 * 86400, &c), vec!["m1".to_string()]);
    assert_eq!(reg.len(), 1);
}

#[test]
fn auto_scaling_spawns_and_activates() {
    let mut reg = MirrorRegistry::new();
    let config = AutoScalingConfig { enabled: true, ..Default::default() };
    let mut limiter = SpawnRateLimiter::new();
    let plan = reg.auto_scaling_plan(&config, &mut limiter, 5, true, 100);
    assert!(plan.spawn_standby);
    assert_eq!(limiter.spawns_last_minute_at(100), 1);
    let mut standby = Mirror::new_at("s1".into(), "/tmp/s1".into(), 100);
    standby.activate_as_standby("s.onion".into());
    reg.register_mirror(standby);
    let (removed, activated) = reg.auto_scaling_rebalance(&config, &mut limiter, &plan, 2, 100);
    assert_eq!(removed, 0);
    assert_eq!(activated, Some("s1".to_string()));
    assert_eq!(limiter.activations_last_minute_at(100), 1);
    assert_eq!(limiter.activations_last_minute_at(200), 0);

    let plan = reg.auto_scaling_plan(&config, &mut limiter, 5, false, 101);
    assert!(!plan.spawn_standby);
    assert!(limiter.in_cooldown_at(30, 110));
    assert!(!limiter.can_spawn_at(&config, 110));
    assert!(limiter.can_spawn_at(&config, 131));
}

#[test]
fn spawn_limiter_forgets_after_a_minute() {
    let mut l = SpawnRateLimiter::new();
    l.record_spawn_at(10);
    l.record_spawn_at(20);
    assert_eq!(l.spawns_last_minute_at(20), 2);
    l.record_spawn_at(75);
    assert_eq!(l.spawns_last_minute_at(75), 2);
    assert_eq!(l.spawns_last_minute_at(79), 2);
    assert_eq!(l.spawns_last_minute_at(80), 1);
    assert_eq!(l.spawns_last_minute_at(200), 0);
    assert_eq!(l.spawns_last_minute(), 0);
    assert!(l.can_activate_at(&AutoScalingConfig::default(), 200));
    assert_eq!(default_vanity_timeout(), 30);
}

#[test]
fn retirement_timetable_saturates() {
    let info = RetirementInfo::new_at(RetirementReason::Emergency, u64::MAX, u64::MAX, 1000);
    assert_eq!(info.started_at, 1000);
    assert_eq!(info.drain_ends_at, u64::MAX);
    assert_eq!(info.page_expires_at, u64::MAX);
    assert!(info.is_draining_at(u64::MAX - 1));
}

#[test]
fn aborted_restoration_sets_dormant_since_to_now() {
    let mut info = ResurrectionInfo::new_at(10);
    info.start_restoration_at(20);
    info.abort_restoration();
    assert_eq!(info.restoration_phase, None);
    assert_eq!(info.restoration_started_at, None);
    assert_eq!(info.restoration_abort_count, 1);
    assert!(info.dormant_since > 20);
}

#[test]
fn health_answer_status() {
    assert_eq!(health_status(0), 503);
    assert_eq!(health_status(1), 200);
    assert_eq!(health_status(7), 200);
}

#[test]
fn paused_listing_lookup() {
    let listing = vec![
        ("a.onion".to_string(), "active".to_string()),
        ("b.onion".to_string(), "paused".to_string()),
        ("b.onion".to_string(), "active".to_string()),
    ];
    assert!(listed_as_paused(&listing, "b.onion"));
    assert!(!listed_as_paused(&listing, "a.onion"));
    assert!(!listed_as_paused(&listing, "c.onion"));
    assert!(!listed_as_paused(&Vec::new(), "b.onion"));
}

#[test]
fn cleanup_picks_orphans_and_old_temp_files() {
    let mut reg = MirrorRegistry::new();
    reg.register_mirror(mirror("m1", "a.onion", 0));
    let day = 86400;
    let dirs = vec![
        ("m1".to_string(), 40 * day),
        ("gone".to_string(), 30 * day),
        ("young".to_string(), 30 * day - 1),
        ("old".to_string(), 90 * day),
    ];
    assert_eq!(reg.orphan_dirs_to_remove(&dirs, 30), vec!["gone".to_string(), "old".to_string()]);
    assert!(reg.orphan_dirs_to_remove(&Vec::new(), 30).is_empty());
    let temps = vec![("a".to_string(), 24 * 3600), ("b".to_string(), 24 * 3600 + 1), ("c".to_string(), 5)];
    assert_eq!(temp_entries_to_remove(&temps, 24), vec!["b".to_string()]);
    assert_eq!(temp_entries_to_remove(&temps, 0), vec!["a".to_string(), "b".to_string(), "c".to_string()]);
    let cfg = SelfCleaningConfig::default();
    assert!(cfg.cleanup_due(None, 10));
    assert!(!cfg.cleanup_due(Some(10), 309));
    assert!(cfg.cleanup_due(Some(10), 310));
    assert!(!cfg.cleanup_due(Some(400), 310));
    let off = SelfCleaningConfig { enabled: false, ..cfg };
    assert!(!off.cleanup_due(None, 10));
    assert!(older_than_30s(Some(31)));
    assert!(!older_than_30s(Some(30)));
    assert!(!older_than_30s(None));
}
