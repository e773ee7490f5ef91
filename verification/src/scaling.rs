//! Settings of the mirror orchestrator and the rate limit that keeps it from
//! spawning or activating mirrors too fast.

use vstd::prelude::*;
use crate::clock::unix_time_secs;

verus! {

/// Seconds a vanity-address search may take by default.
pub fn default_vanity_timeout() -> (r: u64)
    ensures
        r == 30,
{
    30
}

/// How mirrors are retired.
#[derive(Debug, Clone, Copy, PartialEq, Eq, Structural)]
pub struct RetirementConfig {
    /// Whether scheduled retirements happen.
    pub proactive_burn_enabled: bool,
    pub burn_interval_days_min: u64,
    pub burn_interval_days_max: u64,
    /// Seconds during which sessions migrate away.
    pub drain_period_seconds: u64,
    /// Hours the retirement page is shown.
    pub retirement_page_hours: u64,
    pub allow_new_sessions_during_retirement: bool,
}

impl Default for RetirementConfig {
    fn default() -> (c: Self)
        ensures
            c == (RetirementConfig {
                proactive_burn_enabled: true,
                burn_interval_days_min: 60,
                burn_interval_days_max: 120,
                drain_period_seconds: 3600,
                retirement_page_hours: 72,
                allow_new_sessions_during_retirement: false,
            }),
    {
        RetirementConfig {
            proactive_burn_enabled: true,
            burn_interval_days_min: 60,
            burn_interval_days_max: 120,
            drain_period_seconds: 3600,
            retirement_page_hours: 72,
            allow_new_sessions_during_retirement: false,
        }
    }
}

/// How a restored mirror is phased back in.
#[derive(Debug, Clone, Copy, PartialEq, Eq, Structural)]
pub struct DiscoveryPeriodConfig {
    /// Hours the three phases take together.
    pub total_duration_hours: u64,
    pub phase1_percent: u8,
    pub phase2_percent: u8,
    pub phase3_percent: u8,
    pub abort_on_threat: bool,
}

impl Default for DiscoveryPeriodConfig {
    fn default() -> (c: Self)
        ensures
            c == (DiscoveryPeriodConfig {
                total_duration_hours: 2,
                phase1_percent: 20,
                phase2_percent: 50,
                phase3_percent: 100,
                abort_on_threat: true,
            }),
    {
        DiscoveryPeriodConfig {
            total_duration_hours: 2,
            phase1_percent: 20,
            phase2_percent: 50,
            phase3_percent: 100,
            abort_on_threat: true,
        }
    }
}

/// How dormant mirrors are evaluated and brought back.
#[derive(Debug, Clone, Copy, PartialEq, Eq, Structural)]
pub struct ResurrectionConfig {
    pub enabled: bool,
    /// Whether the Tor daemon keeps running while dormant.
    pub daemon_keep_running: bool,
    /// Seconds to wait after a burn before the first evaluation, and between evaluations.
    pub wait_after_burn_seconds: u64,
    pub evaluation_window_seconds: u64,
    /// At or above this many attempts an attack is still going on.
    pub threat_threshold_attempts: u64,
    /// Below this many attempts restoring is safe.
    pub safe_threshold_attempts: u64,
    pub discovery_period: DiscoveryPeriodConfig,
    /// Days after which a dormant mirror is destroyed.
    pub max_dormant_days: u64,
}

impl Default for ResurrectionConfig {
    fn default() -> (c: Self)
        ensures
            c == (ResurrectionConfig {
                enabled: true,
                daemon_keep_running: true,
                wait_after_burn_seconds: 900,
                evaluation_window_seconds: 300,
                threat_threshold_attempts: 50,
                safe_threshold_attempts: 10,
                discovery_period: DiscoveryPeriodConfig {
                    total_duration_hours: 2,
                    phase1_percent: 20,
                    phase2_percent: 50,
                    phase3_percent: 100,
                    abort_on_threat: true,
                },
                max_dormant_days: 90,
            }),
    {
        ResurrectionConfig {
            enabled: true,
            daemon_keep_running: true,
            wait_after_burn_seconds: 900,
            evaluation_window_seconds: 300,
            threat_threshold_attempts: 50,
            safe_threshold_attempts: 10,
            discovery_period: DiscoveryPeriodConfig::default(),
            max_dormant_days: 90,
        }
    }
}

/// How the standby pool grows and shrinks. The CPU and memory percentages
/// that decide whether resources allow a spawn are compared by the caller.
#[derive(Debug, Clone, Copy, PartialEq, Eq, Structural)]
pub struct AutoScalingConfig {
    pub enabled: bool,
    pub min_standby: usize,
    pub max_standby: usize,
    pub target_standby: usize,
    /// Whether spawning depends on free resources.
    pub resource_aware: bool,
    pub min_memory_available_mb: u64,
    pub max_spawns_per_minute: u32,
    pub max_activations_per_minute: u32,
    /// Seconds without spawning after resources ran short.
    pub spawn_cooldown_seconds: u64,
    pub auto_replenish_standby: bool,
}

impl Default for AutoScalingConfig {
    fn default() -> (c: Self)
        ensures
            c == (AutoScalingConfig {
                enabled: false,
                min_standby: 1,
                max_standby: 5,
                target_standby: 2,
                resource_aware: true,
                min_memory_available_mb: 512,
                max_spawns_per_minute: 5,
                max_activations_per_minute: 10,
                spawn_cooldown_seconds: 30,
                auto_replenish_standby: true,
            }),
    {
        AutoScalingConfig {
            enabled: false,
            min_standby: 1,
            max_standby: 5,
            target_standby: 2,
            resource_aware: true,
            min_memory_available_mb: 512,
            max_spawns_per_minute: 5,
            max_activations_per_minute: 10,
            spawn_cooldown_seconds: 30,
            auto_replenish_standby: true,
        }
    }
}

/// What the periodic cleanup removes.
#[derive(Debug, Clone, Copy, PartialEq, Eq, Structural)]
pub struct SelfCleaningConfig {
    pub enabled: bool,
    pub cleanup_interval_seconds: u64,
    pub session_idle_timeout_seconds: u64,
    pub max_log_size_mb: u64,
    pub log_retention_count: u32,
    pub memory_high_water_mb: u64,
    /// Days a burned mirror is kept after its last request.
    pub burned_mirror_retention_days: u64,
    pub destroyed_data_retention_days: u64,
    pub temp_file_max_age_hours: u64,
}

impl Default for SelfCleaningConfig {
    fn default() -> (c: Self)
        ensures
            c == (SelfCleaningConfig {
                enabled: true,
                cleanup_interval_seconds: 300,
                session_idle_timeout_seconds: 3600,
                max_log_size_mb: 100,
                log_retention_count: 10,
                memory_high_water_mb: 4096,
                burned_mirror_retention_days: 7,
                destroyed_data_retention_days: 30,
                temp_file_max_age_hours: 24,
            }),
    {
        SelfCleaningConfig {
            enabled: true,
            cleanup_interval_seconds: 300,
            session_idle_timeout_seconds: 3600,
            max_log_size_mb: 100,
            log_retention_count: 10,
            memory_high_water_mb: 4096,
            burned_mirror_retention_days: 7,
            destroyed_data_retention_days: 30,
            temp_file_max_age_hours: 24,
        }
    }
}

impl SelfCleaningConfig {
    /// Whether a cleanup pass is due at `now` when the last one ran at
    /// `last`: never while cleaning is off; otherwise at once the first time
    /// and then every `cleanup_interval_seconds`.
    pub fn cleanup_due(&self, last: Option<u64>, now: u64) -> (r: bool)
        ensures
            r == (self.enabled && match last {
                None => true,
                Some(l) => l <= now && now - l >= self.cleanup_interval_seconds,
            }),
    {
        if !self.enabled {
            return false;
        }
        match last {
            None => true,
            Some(l) => l <= now && now - l >= self.cleanup_interval_seconds,
        }
    }
}

/// Whether a timestamp lies within the minute before `now`; one after `now`
/// does not.
pub open spec fn within_minute(t: u64, now: u64) -> bool {
    t <= now && now - t < 60
}

/// The timestamps of the last minute, in order.
pub open spec fn last_minute(ts: Seq<u64>, now: u64) -> Seq<u64> {
    ts.filter(|t: u64| within_minute(t, now))
}

/// Whether a cooldown begun at `last` still runs at `now`.
pub open spec fn cooling(last: Option<u64>, cooldown_seconds: u64, now: u64) -> bool {
    match last {
        Some(l) => l <= now && now - l < cooldown_seconds,
        None => false,
    }
}

/// Keeps spawns and activations of mirrors within per-minute limits.
#[derive(Debug)]
pub struct SpawnRateLimiter {
    /// When recent spawns happened.
    pub spawn_times: Vec<u64>,
    /// When recent activations happened.
    pub activation_times: Vec<u64>,
    /// When resources last ran short.
    pub last_resource_limit_hit: Option<u64>,
}

fn keep_last_minute(ts: &Vec<u64>, now: u64) -> (r: Vec<u64>)
    ensures
        r@ == last_minute(ts@, now),
{
    let mut r: Vec<u64> = Vec::new();
    let mut i: usize = 0;
    proof {
        reveal_with_fuel(Seq::filter, 1);
        assert(ts@.take(0) =~= Seq::<u64>::empty());
    }
    while i < ts.len()
        invariant
            i <= ts@.len(),
            r@ == last_minute(ts@.take(i as int), now),
        decreases ts@.len() - i,
    {
        proof {
            reveal_with_fuel(Seq::filter, 1);
            assert(ts@.take(i + 1).drop_last() =~= ts@.take(i as int));
        }
        let t = ts[i];
        if t <= now && now - t < 60 {
            r.push(t);
        }
        i = i + 1;
    }
    proof {
        assert(ts@.take(ts@.len() as int) =~= ts@);
    }
    r
}

impl SpawnRateLimiter {
    /// A limiter that has seen nothing.
    pub fn new() -> (l: Self)
        ensures
            l.spawn_times@ == Seq::<u64>::empty(),
            l.activation_times@ == Seq::<u64>::empty(),
            l.last_resource_limit_hit.is_none(),
    {
        SpawnRateLimiter { spawn_times: Vec::new(), activation_times: Vec::new(), last_resource_limit_hit: None }
    }

    /// Records a spawn at `now` and forgets what is older than a minute.
    pub fn record_spawn_at(&mut self, now: u64)
        ensures
            final(self).spawn_times@ == last_minute(old(self).spawn_times@.push(now), now),
            final(self).activation_times == old(self).activation_times,
            final(self).last_resource_limit_hit == old(self).last_resource_limit_hit,
    {
        self.spawn_times.push(now);
        self.spawn_times = keep_last_minute(&self.spawn_times, now);
    }

    /// Records an activation at `now` and forgets what is older than a minute.
    pub fn record_activation_at(&mut self, now: u64)
        ensures
            final(self).activation_times@ == last_minute(old(self).activation_times@.push(now), now),
            final(self).spawn_times == old(self).spawn_times,
            final(self).last_resource_limit_hit == old(self).last_resource_limit_hit,
    {
        self.activation_times.push(now);
        self.activation_times = keep_last_minute(&self.activation_times, now);
    }

    /// Records that resources ran short at `now`.
    pub fn record_resource_limit_at(&mut self, now: u64)
        ensures
            final(self).last_resource_limit_hit == Some(now),
            final(self).spawn_times == old(self).spawn_times,
            final(self).activation_times == old(self).activation_times,
    {
        self.last_resource_limit_hit = Some(now);
    }

    /// Records a spawn, by the system clock.
    pub fn record_spawn(&mut self)
        ensures
            exists|t: u64| final(self).spawn_times@ == last_minute(old(self).spawn_times@.push(t), t),
            final(self).activation_times == old(self).activation_times,
            final(self).last_resource_limit_hit == old(self).last_resource_limit_hit,
    {
        self.record_spawn_at(unix_time_secs());
    }

    /// Records an activation, by the system clock.
    pub fn record_activation(&mut self)
        ensures
            exists|t: u64| final(self).activation_times@ == last_minute(old(self).activation_times@.push(t), t),
            final(self).spawn_times == old(self).spawn_times,
            final(self).last_resource_limit_hit == old(self).last_resource_limit_hit,
    {
        self.record_activation_at(unix_time_secs());
    }

    /// Records that resources ran short, by the system clock.
    pub fn record_resource_limit(&mut self)
        ensures
            final(self).last_resource_limit_hit is Some,
            final(self).spawn_times == old(self).spawn_times,
            final(self).activation_times == old(self).activation_times,
    {
        self.record_resource_limit_at(unix_time_secs());
    }

    /// Spawns recorded in the minute before `now`.
    pub fn spawns_last_minute_at(&self, now: u64) -> (r: u32)
        ensures
            r == last_minute(self.spawn_times@, now).len() as u32,
    {
        keep_last_minute(&self.spawn_times, now).len() as u32
    }

    /// Spawns recorded in the last minute, by the system clock.
    pub fn spawns_last_minute(&self) -> (r: u32)
        ensures
            exists|now: u64| r == #[trigger] last_minute(self.spawn_times@, now).len() as u32,
    {
        let now = unix_time_secs();
        self.spawns_last_minute_at(now)
    }

    /// Activations recorded in the minute before `now`.
    pub fn activations_last_minute_at(&self, now: u64) -> (r: u32)
        ensures
            r == last_minute(self.activation_times@, now).len() as u32,
    {
        keep_last_minute(&self.activation_times, now).len() as u32
    }

    /// Activations recorded in the last minute, by the system clock.
    pub fn activations_last_minute(&self) -> (r: u32)
        ensures
            exists|now: u64| r == #[trigger] last_minute(self.activation_times@, now).len() as u32,
    {
        let now = unix_time_secs();
        self.activations_last_minute_at(now)
    }

    /// Whether the cooldown after a resource shortage runs at `now`.
    pub fn in_cooldown_at(&self, cooldown_seconds: u64, now: u64) -> (r: bool)
        ensures
            r == cooling(self.last_resource_limit_hit, cooldown_seconds, now),
    {
        match self.last_resource_limit_hit {
            Some(last) => last <= now && now - last < cooldown_seconds,
            None => false,
        }
    }

    /// Whether the cooldown runs, by the system clock.
    pub fn in_cooldown(&self, cooldown_seconds: u64) -> (r: bool)
        ensures
            exists|now: u64| r == #[trigger] cooling(self.last_resource_limit_hit, cooldown_seconds, now),
    {
        let now = unix_time_secs();
        self.in_cooldown_at(cooldown_seconds, now)
    }

    /// Whether a spawn is allowed at `now`: no cooldown, and fewer spawns in
    /// the last minute than the limit.
    pub fn can_spawn_at(&self, config: &AutoScalingConfig, now: u64) -> (r: bool)
        ensures
            r == (!cooling(self.last_resource_limit_hit, config.spawn_cooldown_seconds, now)
                && (last_minute(self.spawn_times@, now).len() as u32) < config.max_spawns_per_minute),
    {
        !self.in_cooldown_at(config.spawn_cooldown_seconds, now) && self.spawns_last_minute_at(now) < config.max_spawns_per_minute
    }

    /// Whether a spawn is allowed, by the system clock.
    pub fn can_spawn(&self, config: &AutoScalingConfig) -> (r: bool)
        ensures
            exists|now: u64| r == (!#[trigger] cooling(self.last_resource_limit_hit, config.spawn_cooldown_seconds, now)
                && (last_minute(self.spawn_times@, now).len() as u32) < config.max_spawns_per_minute),
    {
        let now = unix_time_secs();
        self.can_spawn_at(config, now)
    }

    /// Whether an activation is allowed at `now`: fewer activations in the
    /// last minute than the limit.
    pub fn can_activate_at(&self, config: &AutoScalingConfig, now: u64) -> (r: bool)
        ensures
            r == ((last_minute(self.activation_times@, now).len() as u32) < config.max_activations_per_minute),
    {
        self.activations_last_minute_at(now) < config.max_activations_per_minute
    }

    /// Whether an activation is allowed, by the system clock.
    pub fn can_activate(&self, config: &AutoScalingConfig) -> (r: bool)
        ensures
            exists|now: u64| r == ((#[trigger] last_minute(self.activation_times@, now).len() as u32) < config.max_activations_per_minute),
    {
        let now = unix_time_secs();
        self.can_activate_at(config, now)
    }
}

impl Default for SpawnRateLimiter {
    fn default() -> (l: Self)
        ensures
            l.spawn_times@ == Seq::<u64>::empty(),
            l.activation_times@ == Seq::<u64>::empty(),
            l.last_resource_limit_hit.is_none(),
    {
        SpawnRateLimiter::new()
    }
}

} // verus!
