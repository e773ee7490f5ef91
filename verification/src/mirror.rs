//! A mirror's lifecycle: spawning, serving, retiring, lying dormant and
//! being restored in phases, or being burned for good.

use vstd::prelude::*;
use crate::clock::unix_time_secs;
use crate::text::{concat_str, u64_to_decimal, decimal};

verus! {

/// Where a mirror stands in its lifecycle.
#[derive(Debug, Clone, Copy, PartialEq, Eq, Structural)]
pub enum MirrorState {
    /// Being created.
    Spawning,
    /// Serving traffic.
    Active,
    /// Paused by an administrator; serves a redirect page.
    Paused,
    /// Under suspicion of compromise.
    Suspicious,
    /// Confirmed compromised, being burned.
    Burning,
    /// Burned and disabled.
    Burned,
    /// Draining sessions and showing a retirement page.
    Retiring,
    /// Daemon running but every connection refused, awaiting evaluation.
    Dormant,
    /// Coming back, accepting a growing share of users.
    Restoring,
}

/// The share of users a restoring mirror accepts.
#[derive(Debug, Clone, Copy, PartialEq, Eq, Structural)]
pub enum RestorationPhase {
    /// A fifth of users.
    Phase1,
    /// Half of users.
    Phase2,
    /// All users.
    Phase3,
}

/// Percentage of users a phase admits.
pub open spec fn phase_percent(p: RestorationPhase) -> u8 {
    match p {
        RestorationPhase::Phase1 => 20,
        RestorationPhase::Phase2 => 50,
        RestorationPhase::Phase3 => 100,
    }
}

/// The phase after a phase.
pub open spec fn phase_after(p: RestorationPhase) -> Option<RestorationPhase> {
    match p {
        RestorationPhase::Phase1 => Some(RestorationPhase::Phase2),
        RestorationPhase::Phase2 => Some(RestorationPhase::Phase3),
        RestorationPhase::Phase3 => None,
    }
}

/// The position of a phase, counting from one.
pub open spec fn phase_rank(p: RestorationPhase) -> nat {
    match p {
        RestorationPhase::Phase1 => 1,
        RestorationPhase::Phase2 => 2,
        RestorationPhase::Phase3 => 3,
    }
}

impl RestorationPhase {
    /// The percentage of users that see the mirror in this phase.
    pub fn visibility_percent(&self) -> (r: u8)
        ensures
            r == phase_percent(*self),
    {
        match self {
            RestorationPhase::Phase1 => 20,
            RestorationPhase::Phase2 => 50,
            RestorationPhase::Phase3 => 100,
        }
    }

    /// The next phase, if any.
    pub fn next(&self) -> (r: Option<RestorationPhase>)
        ensures
            r == phase_after(*self),
    {
        match self {
            RestorationPhase::Phase1 => Some(RestorationPhase::Phase2),
            RestorationPhase::Phase2 => Some(RestorationPhase::Phase3),
            RestorationPhase::Phase3 => None,
        }
    }
}

/// States in which a mirror serves traffic.
pub open spec fn serves_traffic(s: MirrorState) -> bool {
    s == MirrorState::Active || s == MirrorState::Suspicious || s == MirrorState::Restoring
}

/// States shown in the discovery bar.
pub open spec fn shown_in_discovery(s: MirrorState) -> bool {
    s == MirrorState::Active || s == MirrorState::Suspicious || s == MirrorState::Retiring
        || s == MirrorState::Restoring
}

/// States that are not stable.
pub open spec fn transitional(s: MirrorState) -> bool {
    s == MirrorState::Spawning || s == MirrorState::Burning || s == MirrorState::Retiring
        || s == MirrorState::Restoring
}

/// The lower-case name of a state.
pub open spec fn state_name(s: MirrorState) -> Seq<char> {
    match s {
        MirrorState::Spawning => "spawning"@,
        MirrorState::Active => "active"@,
        MirrorState::Paused => "paused"@,
        MirrorState::Suspicious => "suspicious"@,
        MirrorState::Burning => "burning"@,
        MirrorState::Burned => "burned"@,
        MirrorState::Retiring => "retiring"@,
        MirrorState::Dormant => "dormant"@,
        MirrorState::Restoring => "restoring"@,
    }
}

impl MirrorState {
    /// Whether the mirror serves traffic.
    pub fn can_serve_traffic(&self) -> (r: bool)
        ensures
            r == serves_traffic(*self),
    {
        match self {
            MirrorState::Active | MirrorState::Suspicious | MirrorState::Restoring => true,
            _ => false,
        }
    }

    /// Whether the mirror is listed in the discovery bar.
    pub fn visible_in_discovery(&self) -> (r: bool)
        ensures
            r == shown_in_discovery(*self),
    {
        match self {
            MirrorState::Active | MirrorState::Suspicious | MirrorState::Retiring | MirrorState::Restoring => true,
            _ => false,
        }
    }

    /// Whether the state is a passage between stable states.
    pub fn is_transitional(&self) -> (r: bool)
        ensures
            r == transitional(*self),
    {
        match self {
            MirrorState::Spawning | MirrorState::Burning | MirrorState::Retiring | MirrorState::Restoring => true,
            _ => false,
        }
    }

    /// Whether a replacement mirror is needed.
    pub fn should_replace(&self) -> (r: bool)
        ensures
            r == (*self == MirrorState::Burning || *self == MirrorState::Burned),
    {
        match self {
            MirrorState::Burning | MirrorState::Burned => true,
            _ => false,
        }
    }

    /// The state's lower-case name.
    pub fn as_str(&self) -> (r: &'static str)
        ensures
            r@ == state_name(*self),
    {
        proof {
            reveal_strlit("spawning");
            reveal_strlit("active");
            reveal_strlit("paused");
            reveal_strlit("suspicious");
            reveal_strlit("burning");
            reveal_strlit("burned");
            reveal_strlit("retiring");
            reveal_strlit("dormant");
            reveal_strlit("restoring");
        }
        match self {
            MirrorState::Spawning => "spawning",
            MirrorState::Active => "active",
            MirrorState::Paused => "paused",
            MirrorState::Suspicious => "suspicious",
            MirrorState::Burning => "burning",
            MirrorState::Burned => "burned",
            MirrorState::Retiring => "retiring",
            MirrorState::Dormant => "dormant",
            MirrorState::Restoring => "restoring",
        }
    }
}

/// Why a mirror is retired.
#[derive(Debug, Clone, Copy, PartialEq, Eq, Structural)]
pub enum RetirementReason {
    /// Scheduled rotation.
    Proactive,
    /// Suspicious activity detected.
    Suspicious,
    /// An attack is under way.
    Emergency,
    /// An administrator asked for it.
    Manual,
    /// Keys leaked: the mirror is destroyed for good.
    Compromised,
}

/// The timetable of a retiring mirror.
#[derive(Debug, Clone, Copy, PartialEq, Eq, Structural)]
pub struct RetirementInfo {
    pub started_at: u64,
    /// Until then sessions migrate away.
    pub drain_ends_at: u64,
    /// Until then the retirement page is shown; then the mirror goes dormant.
    pub page_expires_at: u64,
    /// Whether new sessions are admitted while retiring.
    pub allow_new_sessions: bool,
    pub reason: RetirementReason,
}

/// `a + b`, or the largest timestamp when the sum does not fit.
pub open spec fn sat_add(a: u64, b: int) -> u64 {
    if a + b <= u64::MAX { (a + b) as u64 } else { u64::MAX }
}

/// The timetable of a retirement begun at `now`; times past the largest
/// timestamp stop there.
pub open spec fn retirement_at(reason: RetirementReason, drain_seconds: u64, page_hours: u64, now: u64) -> RetirementInfo {
    RetirementInfo {
        started_at: now,
        drain_ends_at: sat_add(now, drain_seconds as int),
        page_expires_at: sat_add(now, page_hours * 3600),
        allow_new_sessions: false,
        reason,
    }
}

impl RetirementInfo {
    /// A retirement begun at `now`.
    pub fn new_at(reason: RetirementReason, drain_seconds: u64, page_hours: u64, now: u64) -> (r: Self)
        ensures
            r == retirement_at(reason, drain_seconds, page_hours, now),
    {
        let page_secs: u64 = if page_hours <= u64::MAX / 3600 { page_hours * 3600 } else { u64::MAX };
        RetirementInfo {
            started_at: now,
            drain_ends_at: now.saturating_add(drain_seconds),
            page_expires_at: now.saturating_add(page_secs),
            allow_new_sessions: false,
            reason,
        }
    }

    /// A retirement begun now by the system clock.
    pub fn new(reason: RetirementReason, drain_seconds: u64, page_hours: u64) -> (r: Self)
        ensures
            exists|t: u64| r == #[trigger] retirement_at(reason, drain_seconds, page_hours, t),
    {
        let now = unix_time_secs();
        let r = RetirementInfo::new_at(reason, drain_seconds, page_hours, now);
        assert(r == retirement_at(reason, drain_seconds, page_hours, now));
        r
    }

    /// Whether sessions are still draining at `now`.
    pub fn is_draining_at(&self, now: u64) -> (r: bool)
        ensures
            r == (now < self.drain_ends_at),
    {
        now < self.drain_ends_at
    }

    /// Whether the retirement page has expired at `now`.
    pub fn page_expired_at(&self, now: u64) -> (r: bool)
        ensures
            r == (now >= self.page_expires_at),
    {
        now >= self.page_expires_at
    }

    /// Whether sessions are still draining, by the system clock.
    pub fn is_draining(&self) -> (r: bool)
        ensures
            exists|now: u64| r == #[trigger] draining_at(*self, now),
    {
        let now = unix_time_secs();
        let r = self.is_draining_at(now);
        assert(r == draining_at(*self, now));
        r
    }

    /// Whether the retirement page has expired, by the system clock.
    pub fn page_expired(&self) -> (r: bool)
        ensures
            exists|now: u64| r == #[trigger] page_expired_spec(*self, now),
    {
        let now = unix_time_secs();
        let r = self.page_expired_at(now);
        assert(r == page_expired_spec(*self, now));
        r
    }
}


/// Whether sessions of a retiring mirror are still draining at `now`.
pub open spec fn draining_at(info: RetirementInfo, now: u64) -> bool {
    now < info.drain_ends_at
}

/// Whether a retiring mirror's page has expired at `now`.
pub open spec fn page_expired_spec(info: RetirementInfo, now: u64) -> bool {
    now >= info.page_expires_at
}

/// A mirror's age at `now`; a creation time after `now` counts as age zero.
pub open spec fn mirror_age(m: Mirror, now: u64) -> u64 {
    if m.created_at <= now { (now - m.created_at) as u64 } else { 0 }
}

/// The bookkeeping of a dormant or restoring mirror.
#[derive(Debug, Clone, Copy, PartialEq, Eq, Structural)]
pub struct ResurrectionInfo {
    /// When the mirror went dormant.
    pub dormant_since: u64,
    /// Connection attempts seen in the current evaluation window.
    pub connection_attempts: u64,
    pub last_evaluation_at: Option<u64>,
    pub restoration_phase: Option<RestorationPhase>,
    pub restoration_started_at: Option<u64>,
    /// How often a restoration was given up.
    pub restoration_abort_count: u32,
}

/// Fresh bookkeeping for a mirror gone dormant at `now`.
pub open spec fn fresh_resurrection(now: u64) -> ResurrectionInfo {
    ResurrectionInfo {
        dormant_since: now,
        connection_attempts: 0,
        last_evaluation_at: None,
        restoration_phase: None,
        restoration_started_at: None,
        restoration_abort_count: 0,
    }
}

/// The bookkeeping after a restoration starts at `now`.
pub open spec fn restoration_started(i: ResurrectionInfo, now: u64) -> ResurrectionInfo {
    ResurrectionInfo { restoration_phase: Some(RestorationPhase::Phase1), restoration_started_at: Some(now), ..i }
}

/// The bookkeeping after an evaluation window closes at `now`.
pub open spec fn evaluation_reset(i: ResurrectionInfo, now: u64) -> ResurrectionInfo {
    ResurrectionInfo { connection_attempts: 0, last_evaluation_at: Some(now), ..i }
}

/// The bookkeeping after a phase step.
pub open spec fn phase_advanced(i: ResurrectionInfo) -> ResurrectionInfo {
    match i.restoration_phase {
        Some(p) => match phase_after(p) {
            Some(n) => ResurrectionInfo { restoration_phase: Some(n), ..i },
            None => i,
        },
        None => i,
    }
}

impl ResurrectionInfo {
    /// Bookkeeping for a mirror gone dormant at `now`.
    pub fn new_at(now: u64) -> (r: Self)
        ensures
            r == fresh_resurrection(now),
    {
        ResurrectionInfo {
            dormant_since: now,
            connection_attempts: 0,
            last_evaluation_at: None,
            restoration_phase: None,
            restoration_started_at: None,
            restoration_abort_count: 0,
        }
    }

    /// Bookkeeping for a mirror gone dormant now, by the system clock.
    pub fn new() -> (r: Self)
        ensures
            r == fresh_resurrection(r.dormant_since),
    {
        ResurrectionInfo::new_at(unix_time_secs())
    }

    /// Counts a connection attempt.
    pub fn record_connection_attempt(&mut self)
        requires
            old(self).connection_attempts < u64::MAX,
        ensures
            *final(self) == (ResurrectionInfo { connection_attempts: (old(self).connection_attempts + 1) as u64, ..*old(self) }),
    {
        self.connection_attempts = self.connection_attempts + 1;
    }

    /// Starts a new evaluation window at `now`.
    pub fn reset_evaluation_at(&mut self, now: u64)
        ensures
            *final(self) == evaluation_reset(*old(self), now),
    {
        self.connection_attempts = 0;
        self.last_evaluation_at = Some(now);
    }

    /// Starts a new evaluation window now, by the system clock.
    pub fn reset_evaluation(&mut self)
        ensures
            exists|t: u64| *final(self) == evaluation_reset(*old(self), t),
    {
        self.reset_evaluation_at(unix_time_secs());
    }

    /// Starts the restoration at `now`, in its first phase.
    pub fn start_restoration_at(&mut self, now: u64)
        ensures
            *final(self) == restoration_started(*old(self), now),
    {
        self.restoration_phase = Some(RestorationPhase::Phase1);
        self.restoration_started_at = Some(now);
    }

    /// Starts the restoration now, by the system clock.
    pub fn start_restoration(&mut self)
        ensures
            exists|t: u64| *final(self) == restoration_started(*old(self), t),
    {
        self.start_restoration_at(unix_time_secs());
    }

    /// Gives the restoration up at `now`: the mirror is dormant again.
    pub fn abort_restoration_at(&mut self, now: u64)
        requires
            old(self).restoration_abort_count < u32::MAX,
        ensures
            *final(self) == restoration_aborted(*old(self), now),
    {
        self.restoration_phase = None;
        self.restoration_started_at = None;
        self.restoration_abort_count = self.restoration_abort_count + 1;
        self.dormant_since = now;
    }

    /// Gives the restoration up now, by the system clock.
    pub fn abort_restoration(&mut self)
        requires
            old(self).restoration_abort_count < u32::MAX,
        ensures
            exists|t: u64| *final(self) == #[trigger] restoration_aborted(*old(self), t),
    {
        let t = unix_time_secs();
        self.abort_restoration_at(t);
        assert(*self == restoration_aborted(*old(self), t));
    }

    /// Moves to the next phase; false when there is none or no restoration runs.
    pub fn advance_phase(&mut self) -> (r: bool)
        ensures
            *final(self) == phase_advanced(*old(self)),
            r == (old(self).restoration_phase matches Some(p) && phase_after(p) is Some),
    {
        match self.restoration_phase {
            Some(current) => match current.next() {
                Some(next) => {
                    self.restoration_phase = Some(next);
                    true
                },
                None => false,
            },
            None => false,
        }
    }

    /// Whether the last phase has run for `phase3_duration_secs` seconds at `now`.
    pub fn is_fully_restored_at(&self, phase3_duration_secs: u64, now: u64) -> (r: bool)
        requires
            self.restoration_started_at matches Some(t) ==> t <= now,
        ensures
            r == (self.restoration_phase == Some(RestorationPhase::Phase3)
                && (self.restoration_started_at matches Some(t) && now - t >= phase3_duration_secs)),
    {
        match (self.restoration_phase, self.restoration_started_at) {
            (Some(RestorationPhase::Phase3), Some(started)) => now - started >= phase3_duration_secs,
            _ => false,
        }
    }

    /// Whether the last phase is complete, by the system clock; a start time
    /// after the clock's reading counts as not complete.
    pub fn is_fully_restored(&self, phase3_duration_secs: u64) -> (r: bool)
        ensures
            exists|now: u64| r == #[trigger] fully_restored_spec(*self, phase3_duration_secs, now),
    {
        let now = unix_time_secs();
        match self.restoration_started_at {
            Some(t) => {
                if t > now {
                    assert(!fully_restored_spec(*self, phase3_duration_secs, now));
                    return false;
                }
            },
            None => {},
        }
        let r = self.is_fully_restored_at(phase3_duration_secs, now);
        assert(r == fully_restored_spec(*self, phase3_duration_secs, now));
        r
    }
}

/// The bookkeeping after a restoration is given up at `now`: dormant again
/// since `now`, one more abort counted.
pub open spec fn restoration_aborted(i: ResurrectionInfo, now: u64) -> ResurrectionInfo {
    ResurrectionInfo {
        restoration_phase: None,
        restoration_started_at: None,
        restoration_abort_count: (i.restoration_abort_count + 1) as u32,
        dormant_since: now,
        ..i
    }
}

/// Whether the last phase of a restoration has run for `secs` seconds at
/// `now`; a start after `now` counts as not complete.
pub open spec fn fully_restored_spec(i: ResurrectionInfo, secs: u64, now: u64) -> bool {
    &&& i.restoration_phase == Some(RestorationPhase::Phase3)
    &&& i.restoration_started_at matches Some(t) && t <= now && now - t >= secs
}

impl Default for ResurrectionInfo {
    fn default() -> (r: Self)
        ensures
            r == fresh_resurrection(r.dormant_since),
    {
        ResurrectionInfo::new()
    }
}

/// A mirror: one onion service in front of the protected site.
#[derive(Debug)]
pub struct Mirror {
    pub id: String,
    pub onion_address: Option<String>,
    pub state: MirrorState,
    /// Seconds since the Unix epoch.
    pub created_at: u64,
    /// The mirror's Tor data directory.
    pub tor_data_dir: String,
    pub tor_service_id: Option<String>,
    /// Whether Tor's proof-of-work defence is on.
    pub pow_enabled: bool,
    /// Whether the onion service lives in files rather than in Tor's memory.
    pub file_based: bool,
    /// Whether the mirror is held in reserve.
    pub is_standby: bool,
    pub retirement_info: Option<RetirementInfo>,
    pub resurrection_info: Option<ResurrectionInfo>,
    /// Whether connections are refused at the application layer.
    pub deny_connections: bool,
    /// When the mirror last served a request.
    pub last_request_time: Option<u64>,
}

/// The mirror after it goes dormant at `now`.
pub open spec fn gone_dormant(m: Mirror, now: u64) -> Mirror {
    Mirror { state: MirrorState::Dormant, resurrection_info: Some(fresh_resurrection(now)), deny_connections: true, ..m }
}

/// The mirror after its restoration starts at `now`.
pub open spec fn restoring(m: Mirror, now: u64) -> Mirror {
    Mirror {
        state: MirrorState::Restoring,
        resurrection_info: Some(restoration_started(
            match m.resurrection_info {
                Some(i) => i,
                None => fresh_resurrection(now),
            },
            now,
        )),
        deny_connections: false,
        ..m
    }
}

/// The mirror after its restoration completes.
pub open spec fn restored(m: Mirror) -> Mirror {
    Mirror { state: MirrorState::Active, retirement_info: None, resurrection_info: None, deny_connections: false, ..m }
}

/// The mirror after it is destroyed for good.
pub open spec fn destroyed(m: Mirror) -> Mirror {
    Mirror { state: MirrorState::Burned, deny_connections: true, retirement_info: None, resurrection_info: None, ..m }
}

/// Whether a mirror admits a connection whose random draw is `random_percent`.
pub open spec fn admits(m: Mirror, random_percent: u8) -> bool {
    !m.deny_connections && match m.state {
        MirrorState::Active | MirrorState::Suspicious => true,
        MirrorState::Retiring => (m.retirement_info matches Some(i) && i.allow_new_sessions),
        MirrorState::Restoring => (m.resurrection_info matches Some(i)
            && (i.restoration_phase matches Some(p) && random_percent <= phase_percent(p))),
        _ => false,
    }
}

impl Mirror {
    /// A mirror being spawned at `now`.
    pub fn new_at(id: String, tor_data_dir: String, now: u64) -> (m: Self)
        ensures
            m.id == id,
            m.tor_data_dir == tor_data_dir,
            m.created_at == now,
            m.onion_address.is_none(),
            m.state == MirrorState::Spawning,
            m.tor_service_id.is_none(),
            !m.pow_enabled,
            !m.file_based,
            !m.is_standby,
            m.retirement_info.is_none(),
            m.resurrection_info.is_none(),
            !m.deny_connections,
            m.last_request_time.is_none(),
    {
        Mirror {
            id,
            onion_address: None,
            state: MirrorState::Spawning,
            created_at: now,
            tor_data_dir,
            tor_service_id: None,
            pow_enabled: false,
            file_based: false,
            is_standby: false,
            retirement_info: None,
            resurrection_info: None,
            deny_connections: false,
            last_request_time: None,
        }
    }

    /// A mirror being spawned now, by the system clock.
    pub fn new(id: String, tor_data_dir: String) -> (m: Self)
        ensures
            m.id == id,
            m.tor_data_dir == tor_data_dir,
            m.onion_address.is_none(),
            m.state == MirrorState::Spawning,
            m.tor_service_id.is_none(),
            !m.pow_enabled,
            !m.file_based,
            !m.is_standby,
            m.retirement_info.is_none(),
            m.resurrection_info.is_none(),
            !m.deny_connections,
            m.last_request_time.is_none(),
    {
        Mirror::new_at(id, tor_data_dir, unix_time_secs())
    }

    /// The mirror is serving at its onion address.
    pub fn activate(&mut self, onion_address: String)
        ensures
            *final(self) == (Mirror {
                onion_address: Some(onion_address),
                state: MirrorState::Active,
                deny_connections: false,
                ..*old(self)
            }),
    {
        self.onion_address = Some(onion_address);
        self.state = MirrorState::Active;
        self.deny_connections = false;
    }

    /// The mirror is ready at its onion address but held in reserve.
    pub fn activate_as_standby(&mut self, onion_address: String)
        ensures
            *final(self) == (Mirror {
                onion_address: Some(onion_address),
                state: MirrorState::Paused,
                is_standby: true,
                deny_connections: false,
                ..*old(self)
            }),
    {
        self.onion_address = Some(onion_address);
        self.state = MirrorState::Paused;
        self.is_standby = true;
        self.deny_connections = false;
    }

    /// Starts a graceful retirement at `now`; the mirror keeps serving.
    pub fn begin_retirement_at(&mut self, reason: RetirementReason, drain_seconds: u64, page_hours: u64, now: u64)
        ensures
            *final(self) == (Mirror {
                state: MirrorState::Retiring,
                retirement_info: Some(retirement_at(reason, drain_seconds, page_hours, now)),
                deny_connections: false,
                ..*old(self)
            }),
    {
        self.state = MirrorState::Retiring;
        self.retirement_info = Some(RetirementInfo::new_at(reason, drain_seconds, page_hours, now));
        self.deny_connections = false;
    }

    /// The retirement page has expired: the mirror refuses every connection.
    pub fn go_dormant_at(&mut self, now: u64)
        ensures
            *final(self) == gone_dormant(*old(self), now),
    {
        self.state = MirrorState::Dormant;
        self.resurrection_info = Some(ResurrectionInfo::new_at(now));
        self.deny_connections = true;
    }

    /// Starts bringing the mirror back at `now`, in the first phase.
    pub fn begin_restoration_at(&mut self, now: u64)
        ensures
            *final(self) == restoring(*old(self), now),
    {
        let mut info = match self.resurrection_info {
            Some(i) => i,
            None => ResurrectionInfo::new_at(now),
        };
        info.start_restoration_at(now);
        self.resurrection_info = Some(info);
        self.state = MirrorState::Restoring;
        self.deny_connections = false;
    }

    /// Gives a restoration up at `now`: the mirror is dormant again.
    pub fn abort_restoration_at(&mut self, now: u64)
        requires
            old(self).resurrection_info matches Some(i) ==> i.restoration_abort_count < u32::MAX,
        ensures
            final(self).state == MirrorState::Dormant,
            final(self).deny_connections,
            match old(self).resurrection_info {
                Some(i) => final(self).resurrection_info == Some(ResurrectionInfo {
                    restoration_phase: None,
                    restoration_started_at: None,
                    restoration_abort_count: (i.restoration_abort_count + 1) as u32,
                    dormant_since: now,
                    ..i
                }),
                None => final(self).resurrection_info.is_none(),
            },
            *final(self) == (Mirror {
                state: MirrorState::Dormant,
                deny_connections: true,
                resurrection_info: final(self).resurrection_info,
                ..*old(self)
            }),
    {
        match self.resurrection_info {
            Some(i) => {
                let mut info = i;
                info.abort_restoration_at(now);
                self.resurrection_info = Some(info);
            },
            None => {},
        }
        self.state = MirrorState::Dormant;
        self.deny_connections = true;
    }

    /// The restoration is complete: the mirror is active again.
    pub fn complete_restoration(&mut self)
        ensures
            *final(self) == restored(*old(self)),
    {
        self.state = MirrorState::Active;
        self.retirement_info = None;
        self.resurrection_info = None;
        self.deny_connections = false;
    }

    /// Destroys the mirror for good.
    pub fn permanent_destroy(&mut self)
        ensures
            *final(self) == destroyed(*old(self)),
    {
        self.state = MirrorState::Burned;
        self.deny_connections = true;
        self.retirement_info = None;
        self.resurrection_info = None;
    }

    /// Whether the mirror takes a connection whose random draw (0 to 100) is
    /// `random_percent`.
    pub fn should_accept_connection(&self, random_percent: u8) -> (r: bool)
        ensures
            r == admits(*self, random_percent),
    {
        if self.deny_connections {
            return false;
        }
        match self.state {
            MirrorState::Active | MirrorState::Suspicious => true,
            MirrorState::Retiring => match self.retirement_info {
                Some(info) => info.allow_new_sessions,
                None => false,
            },
            MirrorState::Restoring => match self.resurrection_info {
                Some(info) => match info.restoration_phase {
                    Some(phase) => random_percent <= phase.visibility_percent(),
                    None => false,
                },
                None => false,
            },
            _ => false,
        }
    }

    /// A high compromise score makes an active mirror suspicious.
    pub fn note_high_compromise_score(&mut self)
        ensures
            *final(self) == if old(self).state == MirrorState::Active {
                Mirror { state: MirrorState::Suspicious, ..*old(self) }
            } else {
                *old(self)
            },
    {
        if self.state == MirrorState::Active {
            self.state = MirrorState::Suspicious;
        }
    }

    /// Starts burning the mirror.
    pub fn burn(&mut self)
        ensures
            *final(self) == (Mirror { state: MirrorState::Burning, ..*old(self) }),
    {
        self.state = MirrorState::Burning;
    }

    /// The mirror is burned.
    pub fn complete_burn(&mut self)
        ensures
            *final(self) == (Mirror { state: MirrorState::Burned, ..*old(self) }),
    {
        self.state = MirrorState::Burned;
    }

    /// The mirror's age at `now`.
    pub fn age_seconds_at(&self, now: u64) -> (r: u64)
        requires
            self.created_at <= now,
        ensures
            r == now - self.created_at,
    {
        now - self.created_at
    }

    /// Starts a graceful retirement now, by the system clock.
    pub fn begin_retirement(&mut self, reason: RetirementReason, drain_seconds: u64, page_hours: u64)
        ensures
            exists|t: u64| *final(self) == (Mirror {
                state: MirrorState::Retiring,
                retirement_info: Some(#[trigger] retirement_at(reason, drain_seconds, page_hours, t)),
                deny_connections: false,
                ..*old(self)
            }),
    {
        let t = unix_time_secs();
        self.begin_retirement_at(reason, drain_seconds, page_hours, t);
        assert(self.retirement_info == Some(retirement_at(reason, drain_seconds, page_hours, t)));
    }

    /// The retirement page has expired, by the system clock.
    pub fn go_dormant(&mut self)
        ensures
            *final(self) == gone_dormant(*old(self), final(self).resurrection_info->0.dormant_since),
    {
        self.go_dormant_at(unix_time_secs());
    }

    /// Starts bringing the mirror back now, by the system clock.
    pub fn begin_restoration(&mut self)
        ensures
            exists|t: u64| *final(self) == #[trigger] restoring(*old(self), t),
    {
        let t = unix_time_secs();
        self.begin_restoration_at(t);
        assert(*self == restoring(*old(self), t));
    }

    /// The mirror's age now, by the system clock; a creation time in the
    /// clock's future counts as age zero.
    pub fn age_seconds(&self) -> (r: u64)
        ensures
            exists|now: u64| r == #[trigger] mirror_age(*self, now),
    {
        let now = unix_time_secs();
        let r = if self.created_at <= now { self.age_seconds_at(now) } else { 0 };
        assert(r == mirror_age(*self, now));
        r
    }
}


/// A mirror that refuses connections, is dormant or has been destroyed admits
/// no connection, whatever the draw.
pub proof fn law_refusing_mirror_admits_nothing(m: Mirror, now: u64, random_percent: u8)
    ensures
        m.deny_connections ==> !admits(m, random_percent),
        !admits(gone_dormant(m, now), random_percent),
        !admits(destroyed(m), random_percent),
        m.state == MirrorState::Burned || m.state == MirrorState::Dormant || m.state == MirrorState::Paused
            ==> !admits(m, random_percent),
{
}

/// An active or suspicious mirror that does not refuse connections admits
/// every connection, whatever the draw; so a high compromise score, which
/// makes an active mirror suspicious, does not stop it serving.
pub proof fn law_serving_mirror_admits_everyone(m: Mirror, random_percent: u8)
    ensures
        !m.deny_connections && (m.state == MirrorState::Active || m.state == MirrorState::Suspicious)
            ==> admits(m, random_percent),
        !m.deny_connections && m.state == MirrorState::Active
            ==> admits(Mirror { state: MirrorState::Suspicious, ..m }, random_percent),
{
}

/// Restoration only moves forward: a phase step never lowers the phase or the
/// share of users admitted, and the last phase stays put.
pub proof fn law_phases_move_forward(i: ResurrectionInfo)
    ensures
        i.restoration_phase matches Some(p) ==> (phase_advanced(i).restoration_phase matches Some(q)
            && phase_rank(q) >= phase_rank(p) && phase_percent(q) >= phase_percent(p)),
        i.restoration_phase == Some(RestorationPhase::Phase3) ==> phase_advanced(i) == i,
        i.restoration_phase.is_none() ==> phase_advanced(i) == i,
{
}

/// A mirror that starts restoring admits a fifth of users and nothing more;
/// once restored it admits everyone.
pub proof fn law_restoration_admits_growing_share(m: Mirror, now: u64, random_percent: u8)
    ensures
        admits(restoring(m, now), random_percent) == (random_percent <= 20),
        admits(restored(m), random_percent),
{
}

/// The kinds of sign that a mirror may be compromised.
#[derive(Debug, Clone, Copy, PartialEq, Eq, Structural)]
pub enum SignalType {
    UnusualTraffic,
    TimingAnomaly,
    RepeatedFailures,
    MemoryExhaustion,
    NetworkAnomaly,
}

/// When a mirror is rotated out.
#[derive(Debug, Clone, Copy, PartialEq, Eq, Structural)]
pub enum RotationStrategy {
    /// Once it reaches an age.
    AgeBased,
    /// Once it has served a number of requests.
    RequestBased,
    /// Once its compromise score reaches a threshold.
    RiskBased,
}

/// The reason given when a mirror is too old.
pub open spec fn age_reason(age: u64, max_age: u64) -> Seq<char> {
    "Mirror age "@ + decimal(age as nat) + "s exceeds maximum "@ + decimal(max_age as nat) + "s"@
}

/// The reason given when a mirror has served too many requests.
pub open spec fn request_reason(requests: u64, max_requests: u64) -> Seq<char> {
    "Request count "@ + decimal(requests as nat) + " exceeds maximum "@ + decimal(max_requests as nat)
}

/// Whether a mirror of age `age` seconds is due for age-based rotation,
/// with the reason; no reason when it is not.
pub fn age_rotation_check(age: u64, max_age_seconds: u64) -> (r: (bool, String))
    ensures
        r.0 == (age >= max_age_seconds),
        r.1@ == if age >= max_age_seconds { age_reason(age, max_age_seconds) } else { Seq::<char>::empty() },
{
    if age >= max_age_seconds {
        let mut s = concat_str("Mirror age ", u64_to_decimal(age).as_str());
        s.append("s exceeds maximum ");
        s.append(u64_to_decimal(max_age_seconds).as_str());
        s.append("s");
        (true, s)
    } else {
        (false, String::new())
    }
}

/// Whether a mirror that has served `requests` requests is due for
/// request-based rotation, with the reason; no reason when it is not.
pub fn request_rotation_check(requests: u64, max_requests: u64) -> (r: (bool, String))
    ensures
        r.0 == (requests >= max_requests),
        r.1@ == if requests >= max_requests { request_reason(requests, max_requests) } else { Seq::<char>::empty() },
{
    if requests >= max_requests {
        let mut s = concat_str("Request count ", u64_to_decimal(requests).as_str());
        s.append(" exceeds maximum ");
        s.append(u64_to_decimal(max_requests).as_str());
        (true, s)
    } else {
        (false, String::new())
    }
}

/// Seconds until a mirror of age `age` is rotated: only age-based rotation
/// has a timetable, and an overdue mirror has none left.
pub fn time_until_rotation_for(strategy: RotationStrategy, age: u64, max_age_seconds: u64) -> (r: Option<u64>)
    ensures
        r == match strategy {
            RotationStrategy::AgeBased => Some(if age < max_age_seconds { (max_age_seconds - age) as u64 } else { 0 }),
            _ => None::<u64>,
        },
{
    match strategy {
        RotationStrategy::AgeBased => {
            if age < max_age_seconds { Some(max_age_seconds - age) } else { Some(0) }
        },
        _ => None,
    }
}

/// Under age-based rotation no time is left exactly when the age check
/// says the mirror is due.
pub proof fn law_no_time_left_iff_due(age: u64, max_age_seconds: u64)
    ensures
        (if age < max_age_seconds { (max_age_seconds - age) as u64 } else { 0u64 }) == 0 <==> age >= max_age_seconds,
{
}

/// The state a saved state name restores, if it names one: a standby comes
/// back paused.
pub open spec fn saved_state(name: Seq<char>) -> Option<MirrorState> {
    if name == "active"@ { Some(MirrorState::Active) }
    else if name == "paused"@ || name == "standby"@ { Some(MirrorState::Paused) }
    else if name == "retiring"@ { Some(MirrorState::Retiring) }
    else if name == "dormant"@ { Some(MirrorState::Dormant) }
    else { None }
}

/// The mirror after its saved metadata is applied: the standby and
/// proof-of-work flags, the creation time when one was saved (not zero),
/// and the state when its name is known ("standby" also marks a standby).
pub open spec fn metadata_applied(m: Mirror, is_standby: bool, state: Seq<char>, created_at: u64, pow_enabled: bool) -> Mirror {
    Mirror {
        is_standby: is_standby || state == "standby"@,
        pow_enabled,
        created_at: if created_at > 0 { created_at } else { m.created_at },
        state: match saved_state(state) { Some(s) => s, None => m.state },
        ..m
    }
}

impl Mirror {
    /// Applies the metadata saved for this mirror.
    pub fn apply_metadata(&mut self, is_standby: bool, state: &str, created_at: u64, pow_enabled: bool)
        ensures
            *final(self) == metadata_applied(*old(self), is_standby, state@, created_at, pow_enabled),
    {
        proof {
            reveal_strlit("active");
            reveal_strlit("paused");
            reveal_strlit("standby");
            reveal_strlit("retiring");
            reveal_strlit("dormant");
            assert("active"@ != "standby"@) by { assert("active"@[0] != "standby"@[0]); }
            assert("paused"@ != "standby"@) by { assert("paused"@[0] != "standby"@[0]); }
            assert("retiring"@ != "standby"@) by { assert("retiring"@[0] != "standby"@[0]); }
            assert("dormant"@ != "standby"@) by { assert("dormant"@[0] != "standby"@[0]); }
        }
        self.is_standby = is_standby;
        self.pow_enabled = pow_enabled;
        if created_at > 0 {
            self.created_at = created_at;
        }
        if crate::text::str_eq(state, "active") {
            self.state = MirrorState::Active;
        } else if crate::text::str_eq(state, "paused") {
            self.state = MirrorState::Paused;
        } else if crate::text::str_eq(state, "standby") {
            self.state = MirrorState::Paused;
            self.is_standby = true;
        } else if crate::text::str_eq(state, "retiring") {
            self.state = MirrorState::Retiring;
        } else if crate::text::str_eq(state, "dormant") {
            self.state = MirrorState::Dormant;
        }
    }

    /// Sets the address of a mirror found on disk; one that is not a
    /// standby is active.
    pub fn set_loaded_address(&mut self, onion_address: String)
        ensures
            *final(self) == (Mirror {
                onion_address: Some(onion_address),
                state: if old(self).is_standby { old(self).state } else { MirrorState::Active },
                ..*old(self)
            }),
    {
        self.onion_address = Some(onion_address);
        if !self.is_standby {
            self.state = MirrorState::Active;
        }
    }
}

} // verus!
