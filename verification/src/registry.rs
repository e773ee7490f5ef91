//! The orchestrator's set of mirrors: administrator actions on them and the
//! periodic passes that retire, evaluate, restore, scale and clean them up.

use vstd::prelude::*;
use crate::mirror::{
    Mirror, MirrorState, RestorationPhase, ResurrectionInfo, evaluation_reset, phase_advanced, RetirementReason, retirement_at, gone_dormant, restoring,
    restored, destroyed, state_name,
};
use crate::scaling::{RetirementConfig, ResurrectionConfig, SelfCleaningConfig, AutoScalingConfig, SpawnRateLimiter, cooling, last_minute};
use crate::text::{owned, str_eq, u64_to_decimal, decimal, starts_with, has_prefix, concat_str, views};
use crate::json::{json_bool_field, read_json_bool_field};

verus! {

/// Errors of the orchestrator.
#[derive(Debug)]
pub enum OrchestratorError {
    MirrorNotFound(String),
    TorConfigError(String),
    MirrorBurned,
    MirrorNotPaused,
    NoHealthyMirrors,
    SpawnFailed,
    TorTimeout(u64),
    TorConnectionFailed(String),
}

/// The message each error displays.
pub open spec fn orchestrator_error_message(e: OrchestratorError) -> Seq<char> {
    match e {
        OrchestratorError::MirrorNotFound(s) => "Mirror not found: "@ + s@,
        OrchestratorError::TorConfigError(s) => "Tor configuration error: "@ + s@,
        OrchestratorError::MirrorBurned => "Mirror already burned"@,
        OrchestratorError::MirrorNotPaused => "Mirror is not paused"@,
        OrchestratorError::NoHealthyMirrors => "No healthy mirrors available"@,
        OrchestratorError::SpawnFailed => "Failed to spawn replacement"@,
        OrchestratorError::TorTimeout(n) => "Tor control command timed out after "@ + decimal(n as nat) + "s"@,
        OrchestratorError::TorConnectionFailed(s) => "Tor control connection failed: "@ + s@,
    }
}

fn prefixed(prefix: &str, rest: &str) -> (r: String)
    ensures
        r@ == prefix@ + rest@,
{
    let mut s = owned(prefix);
    s.append(rest);
    s
}

impl OrchestratorError {
    /// The error's message.
    pub fn message(&self) -> (r: String)
        ensures
            r@ == orchestrator_error_message(*self),
    {
        match self {
            OrchestratorError::MirrorNotFound(s) => prefixed("Mirror not found: ", s.as_str()),
            OrchestratorError::TorConfigError(s) => prefixed("Tor configuration error: ", s.as_str()),
            OrchestratorError::MirrorBurned => owned("Mirror already burned"),
            OrchestratorError::MirrorNotPaused => owned("Mirror is not paused"),
            OrchestratorError::NoHealthyMirrors => owned("No healthy mirrors available"),
            OrchestratorError::SpawnFailed => owned("Failed to spawn replacement"),
            OrchestratorError::TorTimeout(n) => {
                let d = u64_to_decimal(*n);
                let mut s = prefixed("Tor control command timed out after ", d.as_str());
                s.append("s");
                s
            },
            OrchestratorError::TorConnectionFailed(s) => prefixed("Tor control connection failed: ", s.as_str()),
        }
    }
}

/// A mirror as the administration panel lists it.
#[derive(Debug)]
pub struct MirrorInfo {
    pub id: String,
    pub onion_address: String,
    pub status: String,
    pub pow_enabled: bool,
    pub is_standby: bool,
    pub file_based: bool,
}

/// Whether a listing entry describes a mirror that has an onion address.
pub open spec fn describes(i: MirrorInfo, m: Mirror) -> bool {
    &&& i.id@ == m.id@
    &&& m.onion_address matches Some(a) && i.onion_address@ == a@
    &&& i.status@ == state_name(m.state)
    &&& i.pow_enabled == m.pow_enabled
    &&& i.is_standby == m.is_standby
    &&& i.file_based == m.file_based
}

/// Whether a mirror serves at the given onion address.
pub open spec fn onion_is(m: Mirror, address: Seq<char>) -> bool {
    m.onion_address matches Some(a) && a@ == address
}

/// The first mirror from position `k` on that serves at `address`.
pub open spec fn first_onion_from(s: Seq<Mirror>, address: Seq<char>, k: int) -> Option<int>
    decreases s.len() - k,
{
    if k < 0 || k >= s.len() {
        None
    } else if onion_is(s[k], address) {
        Some(k)
    } else {
        first_onion_from(s, address, k + 1)
    }
}

/// The first mirror that serves at `address`.
pub open spec fn first_onion(s: Seq<Mirror>, address: Seq<char>) -> Option<int> {
    first_onion_from(s, address, 0)
}

/// The first mirror from position `k` on with the given id.
pub open spec fn first_id_from(s: Seq<Mirror>, id: Seq<char>, k: int) -> Option<int>
    decreases s.len() - k,
{
    if k < 0 || k >= s.len() {
        None
    } else if s[k].id@ == id {
        Some(k)
    } else {
        first_id_from(s, id, k + 1)
    }
}

/// The first mirror with the given id.
pub open spec fn first_id(s: Seq<Mirror>, id: Seq<char>) -> Option<int> {
    first_id_from(s, id, 0)
}

/// The error for an address or id that names no mirror.
pub open spec fn not_found(e: OrchestratorError, name: Seq<char>) -> bool {
    e matches OrchestratorError::MirrorNotFound(s) && s@ == name
}

proof fn lemma_first_from_in_range(s: Seq<Mirror>, address: Seq<char>, k: int)
    requires
        0 <= k,
    ensures
        first_onion_from(s, address, k) matches Some(i) ==> k <= i < s.len() && onion_is(s[i], address),
    decreases s.len() - k,
{
    if k < s.len() && !onion_is(s[k], address) {
        lemma_first_from_in_range(s, address, k + 1);
    }
}

proof fn lemma_first_id_in_range(s: Seq<Mirror>, id: Seq<char>, k: int)
    requires
        0 <= k,
    ensures
        first_id_from(s, id, k) matches Some(i) ==> k <= i < s.len() && s[i].id@ == id,
    decreases s.len() - k,
{
    if k < s.len() && s[k].id@ != id {
        lemma_first_id_in_range(s, id, k + 1);
    }
}

/// The orchestrator's mirrors.
pub struct MirrorRegistry {
    mirrors: Vec<Mirror>,
}

impl View for MirrorRegistry {
    type V = Seq<Mirror>;

    closed spec fn view(&self) -> Seq<Mirror> {
        self.mirrors@
    }
}

impl MirrorRegistry {
    /// A registry without mirrors.
    pub fn new() -> (r: Self)
        ensures
            r@ == Seq::<Mirror>::empty(),
    {
        MirrorRegistry { mirrors: Vec::new() }
    }

    /// The number of mirrors.
    pub fn len(&self) -> (n: usize)
        ensures
            n == self@.len(),
    {
        self.mirrors.len()
    }

    /// The mirror at a position.
    pub fn mirror_at(&self, i: usize) -> (m: &Mirror)
        requires
            i < self@.len(),
        ensures
            *m == self@[i as int],
    {
        &self.mirrors[i]
    }

    /// Where the first mirror serving at `address` stands.
    pub fn find_onion(&self, address: &str) -> (r: Option<usize>)
        ensures
            r matches Some(i) ==> first_onion(self@, address@) == Some(i as int),
            r is None ==> first_onion(self@, address@) is None,
    {
        let mut i: usize = 0;
        while i < self.mirrors.len()
            invariant
                i <= self.mirrors@.len(),
                first_onion(self.mirrors@, address@) == first_onion_from(self.mirrors@, address@, i as int),
            decreases self.mirrors@.len() - i,
        {
            let hit = match &self.mirrors[i].onion_address {
                Some(a) => str_eq(a.as_str(), address),
                None => false,
            };
            if hit {
                return Some(i);
            }
            i = i + 1;
        }
        None
    }

    /// Where the first mirror with id `id` stands.
    pub fn find_id(&self, id: &str) -> (r: Option<usize>)
        ensures
            r matches Some(i) ==> first_id(self@, id@) == Some(i as int),
            r is None ==> first_id(self@, id@) is None,
    {
        let mut i: usize = 0;
        while i < self.mirrors.len()
            invariant
                i <= self.mirrors@.len(),
                first_id(self.mirrors@, id@) == first_id_from(self.mirrors@, id@, i as int),
            decreases self.mirrors@.len() - i,
        {
            if str_eq(self.mirrors[i].id.as_str(), id) {
                return Some(i);
            }
            i = i + 1;
        }
        None
    }

    /// The mirror with id `id`.
    pub fn get_mirror(&self, id: &str) -> (r: Option<&Mirror>)
        ensures
            match first_id(self@, id@) {
                Some(i) => r == Some(&self@[i]),
                None => r is None,
            },
    {
        proof {
            lemma_first_id_in_range(self@, id@, 0);
        }
        match self.find_id(id) {
            Some(i) => Some(&self.mirrors[i]),
            None => None,
        }
    }

    /// Adds a mirror, replacing the one with the same id if there is one.
    pub fn register_mirror(&mut self, m: Mirror)
        ensures
            match first_id(old(self)@, m.id@) {
                Some(i) => final(self)@ == old(self)@.update(i, m),
                None => final(self)@ == old(self)@.push(m),
            },
    {
        proof {
            lemma_first_id_in_range(self@, m.id@, 0);
        }
        match self.find_id(m.id.as_str()) {
            Some(i) => {
                let ghost s0 = self.mirrors@;
                let _old = self.mirrors.remove(i);
                self.mirrors.insert(i, m);
                proof {
                    assert(self.mirrors@ =~= s0.update(i as int, m));
                }
            },
            None => {
                self.mirrors.push(m);
            },
        }
    }

    /// Replaces the mirror at position `i`, giving back the one that stood there.
    fn take_at(&mut self, i: usize) -> (m: Mirror)
        requires
            i < old(self)@.len(),
        ensures
            m == old(self)@[i as int],
            final(self)@ == old(self)@.remove(i as int),
    {
        self.mirrors.remove(i)
    }

    fn put_at(&mut self, i: usize, m: Mirror)
        requires
            i <= old(self)@.len(),
        ensures
            final(self)@ == old(self)@.insert(i as int, m),
    {
        self.mirrors.insert(i, m);
    }
}

/// A registry where the mirror at `i` has a new state.
pub open spec fn with_state(s: Seq<Mirror>, i: int, st: MirrorState) -> Seq<Mirror> {
    s.update(i, Mirror { state: st, ..s[i] })
}

proof fn lemma_first_onion_same_addresses(s: Seq<Mirror>, t: Seq<Mirror>, address: Seq<char>, k: int)
    requires
        s.len() == t.len(),
        forall|j: int| 0 <= j < s.len() ==> #[trigger] s[j].onion_address == t[j].onion_address,
    ensures
        first_onion_from(s, address, k) == first_onion_from(t, address, k),
    decreases s.len() - k,
{
    if 0 <= k < s.len() {
        assert(s[k].onion_address == t[k].onion_address);
        lemma_first_onion_same_addresses(s, t, address, k + 1);
    }
}

/// Resuming a mirror that was paused while active gives back the registry
/// as it was before the pause, and the pause leaves the mirror at the same
/// address.
pub proof fn law_resume_undoes_pause(s: Seq<Mirror>, address: Seq<char>)
    requires
        first_onion(s, address) matches Some(i) && s[i].state == MirrorState::Active,
    ensures
        ({
            let i = first_onion(s, address)->0;
            let paused = with_state(s, i, MirrorState::Paused);
            &&& first_onion(paused, address) == Some(i)
            &&& paused[i].state == MirrorState::Paused
            &&& with_state(paused, i, MirrorState::Active) == s
        }),
{
    let i = first_onion(s, address)->0;
    lemma_first_from_in_range(s, address, 0);
    let paused = with_state(s, i, MirrorState::Paused);
    assert forall|j: int| 0 <= j < s.len() implies #[trigger] s[j].onion_address == paused[j].onion_address by {}
    lemma_first_onion_same_addresses(s, paused, address, 0);
    assert(with_state(paused, i, MirrorState::Active) =~= s);
}

impl MirrorRegistry {
    /// Pauses the mirror at `address` unless it is burned.
    pub fn pause_mirror(&mut self, address: &str) -> (r: Result<(), OrchestratorError>)
        ensures
            match first_onion(old(self)@, address@) {
                None => (r matches Err(e) && not_found(e, address@)) && final(self)@ == old(self)@,
                Some(i) => if old(self)@[i].state == MirrorState::Burned {
                    (r matches Err(e) && e is MirrorBurned) && final(self)@ == old(self)@
                } else {
                    r is Ok && final(self)@ == with_state(old(self)@, i, MirrorState::Paused)
                },
            },
    {
        proof {
            lemma_first_from_in_range(self@, address@, 0);
        }
        match self.find_onion(address) {
            None => Err(OrchestratorError::MirrorNotFound(owned(address))),
            Some(i) => {
                if self.mirrors[i].state == MirrorState::Burned {
                    return Err(OrchestratorError::MirrorBurned);
                }
                let ghost s0 = self@;
                let mut m = self.take_at(i);
                m.state = MirrorState::Paused;
                self.put_at(i, m);
                proof {
                    assert(self@ =~= with_state(s0, i as int, MirrorState::Paused));
                }
                Ok(())
            },
        }
    }

    /// Resumes the paused mirror at `address`.
    pub fn resume_mirror(&mut self, address: &str) -> (r: Result<(), OrchestratorError>)
        ensures
            match first_onion(old(self)@, address@) {
                None => (r matches Err(e) && not_found(e, address@)) && final(self)@ == old(self)@,
                Some(i) => if old(self)@[i].state != MirrorState::Paused {
                    (r matches Err(e) && e is MirrorNotPaused) && final(self)@ == old(self)@
                } else {
                    r is Ok && final(self)@ == with_state(old(self)@, i, MirrorState::Active)
                },
            },
    {
        proof {
            lemma_first_from_in_range(self@, address@, 0);
        }
        match self.find_onion(address) {
            None => Err(OrchestratorError::MirrorNotFound(owned(address))),
            Some(i) => {
                if self.mirrors[i].state != MirrorState::Paused {
                    return Err(OrchestratorError::MirrorNotPaused);
                }
                let ghost s0 = self@;
                let mut m = self.take_at(i);
                m.state = MirrorState::Active;
                self.put_at(i, m);
                proof {
                    assert(self@ =~= with_state(s0, i as int, MirrorState::Active));
                }
                Ok(())
            },
        }
    }

    /// Puts the paused standby mirror at `address` into service.
    pub fn activate_standby(&mut self, address: &str) -> (r: Result<(), OrchestratorError>)
        ensures
            match first_onion(old(self)@, address@) {
                None => (r matches Err(e) && not_found(e, address@)) && final(self)@ == old(self)@,
                Some(i) => if old(self)@[i].state == MirrorState::Burned {
                    (r matches Err(e) && e is MirrorBurned) && final(self)@ == old(self)@
                } else if old(self)@[i].state != MirrorState::Paused {
                    (r matches Err(e) && e is MirrorNotPaused) && final(self)@ == old(self)@
                } else {
                    r is Ok && final(self)@ == old(self)@.update(
                        i,
                        Mirror { state: MirrorState::Active, is_standby: false, ..old(self)@[i] },
                    )
                },
            },
    {
        proof {
            lemma_first_from_in_range(self@, address@, 0);
        }
        match self.find_onion(address) {
            None => Err(OrchestratorError::MirrorNotFound(owned(address))),
            Some(i) => {
                if self.mirrors[i].state == MirrorState::Burned {
                    return Err(OrchestratorError::MirrorBurned);
                }
                if self.mirrors[i].state != MirrorState::Paused {
                    return Err(OrchestratorError::MirrorNotPaused);
                }
                let ghost s0 = self@;
                let mut m = self.take_at(i);
                m.state = MirrorState::Active;
                m.is_standby = false;
                let ghost m1 = m;
                self.put_at(i, m);
                proof {
                    assert(self@ =~= s0.update(i as int, m1));
                }
                Ok(())
            },
        }
    }

    /// Whether the mirror at `address` is paused; false when there is none.
    pub fn is_mirror_paused(&self, address: &str) -> (r: bool)
        ensures
            r == (first_onion(self@, address@) matches Some(i) && self@[i].state == MirrorState::Paused),
    {
        proof {
            lemma_first_from_in_range(self@, address@, 0);
        }
        match self.find_onion(address) {
            Some(i) => self.mirrors[i].state == MirrorState::Paused,
            None => false,
        }
    }

    /// Retires the mirror at `address` at time `now`: a compromised mirror is
    /// destroyed at once, any other starts draining under the configuration.
    pub fn retire_mirror_at(&mut self, address: &str, reason: RetirementReason, config: &RetirementConfig, now: u64) -> (r: Result<(), OrchestratorError>)
        ensures
            match first_onion(old(self)@, address@) {
                None => (r matches Err(e) && not_found(e, address@)) && final(self)@ == old(self)@,
                Some(i) => if old(self)@[i].state == MirrorState::Burned || old(self)@[i].state == MirrorState::Dormant {
                    (r matches Err(e) && e is MirrorBurned) && final(self)@ == old(self)@
                } else if reason == RetirementReason::Compromised {
                    r is Ok && final(self)@ == old(self)@.update(i, destroyed(old(self)@[i]))
                } else {
                    r is Ok && final(self)@ == old(self)@.update(i, Mirror {
                        state: MirrorState::Retiring,
                        retirement_info: Some(crate::mirror::RetirementInfo {
                            allow_new_sessions: config.allow_new_sessions_during_retirement,
                            ..retirement_at(reason, config.drain_period_seconds, config.retirement_page_hours, now)
                        }),
                        deny_connections: false,
                        ..old(self)@[i]
                    })
                },
            },
    {
        proof {
            lemma_first_from_in_range(self@, address@, 0);
        }
        match self.find_onion(address) {
            None => Err(OrchestratorError::MirrorNotFound(owned(address))),
            Some(i) => {
                if self.mirrors[i].state == MirrorState::Burned || self.mirrors[i].state == MirrorState::Dormant {
                    return Err(OrchestratorError::MirrorBurned);
                }
                let ghost s0 = self@;
                let mut m = self.take_at(i);
                if reason == RetirementReason::Compromised {
                    m.permanent_destroy();
                } else {
                    m.begin_retirement_at(reason, config.drain_period_seconds, config.retirement_page_hours, now);
                    match m.retirement_info {
                        Some(info) => {
                            let mut info2 = info;
                            info2.allow_new_sessions = config.allow_new_sessions_during_retirement;
                            m.retirement_info = Some(info2);
                        },
                        None => {},
                    }
                }
                let ghost m1 = m;
                self.put_at(i, m);
                proof {
                    assert(self@ =~= s0.update(i as int, m1));
                }
                Ok(())
            },
        }
    }

    /// Brings the dormant mirror at `address` back at time `now`, whatever the
    /// evaluation would say.
    pub fn force_resurrect_mirror_at(&mut self, address: &str, now: u64) -> (r: Result<(), OrchestratorError>)
        ensures
            match first_onion(old(self)@, address@) {
                None => (r matches Err(e) && not_found(e, address@)) && final(self)@ == old(self)@,
                Some(i) => if old(self)@[i].state != MirrorState::Dormant {
                    (r matches Err(e) && e is MirrorNotPaused) && final(self)@ == old(self)@
                } else {
                    r is Ok && final(self)@ == old(self)@.update(i, restoring(old(self)@[i], now))
                },
            },
    {
        proof {
            lemma_first_from_in_range(self@, address@, 0);
        }
        match self.find_onion(address) {
            None => Err(OrchestratorError::MirrorNotFound(owned(address))),
            Some(i) => {
                if self.mirrors[i].state != MirrorState::Dormant {
                    return Err(OrchestratorError::MirrorNotPaused);
                }
                let ghost s0 = self@;
                let mut m = self.take_at(i);
                m.begin_restoration_at(now);
                let ghost m1 = m;
                self.put_at(i, m);
                proof {
                    assert(self@ =~= s0.update(i as int, m1));
                }
                Ok(())
            },
        }
    }

    /// Destroys the mirror at `address` for good.
    pub fn permanently_destroy_mirror(&mut self, address: &str) -> (r: Result<(), OrchestratorError>)
        ensures
            match first_onion(old(self)@, address@) {
                None => (r matches Err(e) && not_found(e, address@)) && final(self)@ == old(self)@,
                Some(i) => r is Ok && final(self)@ == old(self)@.update(i, destroyed(old(self)@[i])),
            },
    {
        proof {
            lemma_first_from_in_range(self@, address@, 0);
        }
        match self.find_onion(address) {
            None => Err(OrchestratorError::MirrorNotFound(owned(address))),
            Some(i) => {
                let ghost s0 = self@;
                let mut m = self.take_at(i);
                m.permanent_destroy();
                let ghost m1 = m;
                self.put_at(i, m);
                proof {
                    assert(self@ =~= s0.update(i as int, m1));
                }
                Ok(())
            },
        }
    }

    /// Starts burning the mirror with id `id` unless it is burned already.
    pub fn burn_mirror(&mut self, id: &str) -> (r: Result<(), OrchestratorError>)
        ensures
            match first_id(old(self)@, id@) {
                None => (r matches Err(e) && not_found(e, id@)) && final(self)@ == old(self)@,
                Some(i) => if old(self)@[i].state == MirrorState::Burned {
                    (r matches Err(e) && e is MirrorBurned) && final(self)@ == old(self)@
                } else {
                    r is Ok && final(self)@ == with_state(old(self)@, i, MirrorState::Burning)
                },
            },
    {
        proof {
            lemma_first_id_in_range(self@, id@, 0);
        }
        match self.find_id(id) {
            None => Err(OrchestratorError::MirrorNotFound(owned(id))),
            Some(i) => {
                if self.mirrors[i].state == MirrorState::Burned {
                    return Err(OrchestratorError::MirrorBurned);
                }
                let ghost s0 = self@;
                let mut m = self.take_at(i);
                m.burn();
                self.put_at(i, m);
                proof {
                    assert(self@ =~= with_state(s0, i as int, MirrorState::Burning));
                }
                Ok(())
            },
        }
    }

    /// Marks the mirror with id `id` as burned, once its onion service is gone.
    pub fn complete_burn(&mut self, id: &str) -> (done: bool)
        ensures
            match first_id(old(self)@, id@) {
                None => !done && final(self)@ == old(self)@,
                Some(i) => done && final(self)@ == with_state(old(self)@, i, MirrorState::Burned),
            },
    {
        proof {
            lemma_first_id_in_range(self@, id@, 0);
        }
        match self.find_id(id) {
            None => false,
            Some(i) => {
                let ghost s0 = self@;
                let mut m = self.take_at(i);
                m.complete_burn();
                self.put_at(i, m);
                proof {
                    assert(self@ =~= with_state(s0, i as int, MirrorState::Burned));
                }
                true
            },
        }
    }

    /// Takes the mirror at `address` out of the registry and gives back its id.
    pub fn destroy_mirror(&mut self, address: &str) -> (r: Result<String, OrchestratorError>)
        ensures
            match first_onion(old(self)@, address@) {
                None => (r matches Err(e) && not_found(e, address@)) && final(self)@ == old(self)@,
                Some(i) => (r matches Ok(id) && id == old(self)@[i].id) && final(self)@ == old(self)@.remove(i),
            },
    {
        proof {
            lemma_first_from_in_range(self@, address@, 0);
        }
        match self.find_onion(address) {
            None => Err(OrchestratorError::MirrorNotFound(owned(address))),
            Some(i) => {
                let m = self.take_at(i);
                Ok(m.id)
            },
        }
    }

    /// Applies what the compromise score says of the mirror with id `id`: a
    /// score of at least 0.8 makes an active mirror suspicious, and a score at
    /// the burn threshold starts burning it.
    pub fn report_signal(&mut self, id: &str, score_high: bool, over_burn_threshold: bool) -> (r: Result<(), OrchestratorError>)
        ensures
            match first_id(old(self)@, id@) {
                None => (r matches Err(e) && not_found(e, id@)) && final(self)@ == old(self)@,
                Some(i) => r is Ok && final(self)@ == old(self)@.update(i, Mirror {
                    state: if over_burn_threshold {
                        MirrorState::Burning
                    } else if score_high && old(self)@[i].state == MirrorState::Active {
                        MirrorState::Suspicious
                    } else {
                        old(self)@[i].state
                    },
                    ..old(self)@[i]
                }),
            },
    {
        proof {
            lemma_first_id_in_range(self@, id@, 0);
        }
        match self.find_id(id) {
            None => Err(OrchestratorError::MirrorNotFound(owned(id))),
            Some(i) => {
                let ghost s0 = self@;
                let mut m = self.take_at(i);
                if score_high {
                    m.note_high_compromise_score();
                }
                if over_burn_threshold {
                    m.state = MirrorState::Burning;
                }
                let ghost m1 = m;
                self.put_at(i, m);
                proof {
                    assert(self@ =~= s0.update(i as int, m1));
                }
                Ok(())
            },
        }
    }
}


/// Which mirrors a listing shows.
#[derive(Debug, Clone, Copy, PartialEq, Eq, Structural)]
pub enum Listing {
    /// Those in the discovery bar.
    Discovery,
    /// The dormant ones.
    Dormant,
    /// All that are not burned.
    Live,
}

/// Whether a listing shows a mirror; only mirrors with an onion address are listed.
pub open spec fn listed(which: Listing, m: Mirror) -> bool {
    m.onion_address is Some && match which {
        Listing::Discovery => crate::mirror::shown_in_discovery(m.state),
        Listing::Dormant => m.state == MirrorState::Dormant,
        Listing::Live => m.state != MirrorState::Burned,
    }
}

/// The mirrors a listing shows, in order.
pub open spec fn listed_mirrors(s: Seq<Mirror>, which: Listing) -> Seq<Mirror> {
    s.filter(|m: Mirror| listed(which, m))
}

/// The active mirrors that have an onion address, in order.
pub open spec fn active_with_onion(s: Seq<Mirror>) -> Seq<Mirror> {
    s.filter(|m: Mirror| m.state == MirrorState::Active && m.onion_address is Some)
}

fn info_of(m: &Mirror) -> (i: MirrorInfo)
    requires
        m.onion_address is Some,
    ensures
        describes(i, *m),
{
    let onion = match &m.onion_address {
        Some(a) => a.clone(),
        None => String::new(),
    };
    MirrorInfo {
        id: m.id.clone(),
        onion_address: onion,
        status: owned(m.state.as_str()),
        pow_enabled: m.pow_enabled,
        is_standby: m.is_standby,
        file_based: m.file_based,
    }
}

impl MirrorRegistry {
    /// The mirrors a listing shows, as panel entries.
    pub fn list(&self, which: Listing) -> (r: Vec<MirrorInfo>)
        ensures
            r@.len() == listed_mirrors(self@, which).len(),
            forall|k: int| 0 <= k < r@.len() ==> describes(#[trigger] r@[k], listed_mirrors(self@, which)[k]),
    {
        let ghost s = self@;
        let mut r: Vec<MirrorInfo> = Vec::new();
        let mut i: usize = 0;
        proof {
            reveal_with_fuel(Seq::filter, 1);
            assert(s.take(0) =~= Seq::<Mirror>::empty());
        }
        while i < self.mirrors.len()
            invariant
                s == self.mirrors@,
                i <= s.len(),
                r@.len() == listed_mirrors(s.take(i as int), which).len(),
                forall|k: int| 0 <= k < r@.len() ==> describes(#[trigger] r@[k], listed_mirrors(s.take(i as int), which)[k]),
            decreases s.len() - i,
        {
            proof {
                reveal_with_fuel(Seq::filter, 1);
                assert(s.take(i + 1).drop_last() =~= s.take(i as int));
            }
            let m = &self.mirrors[i];
            let show = match &m.onion_address {
                None => false,
                Some(_) => match which {
                    Listing::Discovery => m.state.visible_in_discovery(),
                    Listing::Dormant => m.state == MirrorState::Dormant,
                    Listing::Live => m.state != MirrorState::Burned,
                },
            };
            if show {
                let ghost r0 = r@;
                r.push(info_of(m));
                proof {
                    assert forall|k: int| 0 <= k < r@.len() implies describes(#[trigger] r@[k], listed_mirrors(s.take(i + 1), which)[k]) by {
                        if k < r0.len() {
                            assert(r@[k] == r0[k]);
                        }
                    }
                }
            }
            i = i + 1;
        }
        proof {
            assert(s.take(s.len() as int) =~= s);
        }
        r
    }

    /// The mirrors shown in the discovery bar.
    pub fn get_discovery_mirrors(&self) -> (r: Vec<MirrorInfo>)
        ensures
            r@.len() == listed_mirrors(self@, Listing::Discovery).len(),
            forall|k: int| 0 <= k < r@.len() ==> describes(#[trigger] r@[k], listed_mirrors(self@, Listing::Discovery)[k]),
    {
        self.list(Listing::Discovery)
    }

    /// The dormant mirrors.
    pub fn get_dormant_mirrors(&self) -> (r: Vec<MirrorInfo>)
        ensures
            r@.len() == listed_mirrors(self@, Listing::Dormant).len(),
            forall|k: int| 0 <= k < r@.len() ==> describes(#[trigger] r@[k], listed_mirrors(self@, Listing::Dormant)[k]),
    {
        self.list(Listing::Dormant)
    }

    /// Every mirror that is not burned.
    pub fn get_all_mirrors_extended(&self) -> (r: Vec<MirrorInfo>)
        ensures
            r@.len() == listed_mirrors(self@, Listing::Live).len(),
            forall|k: int| 0 <= k < r@.len() ==> describes(#[trigger] r@[k], listed_mirrors(self@, Listing::Live)[k]),
    {
        self.list(Listing::Live)
    }

    /// Every mirror that is not burned, as (id, onion address, state name).
    pub fn get_all_mirrors(&self) -> (r: Vec<(String, String, String)>)
        ensures
            r@.len() == listed_mirrors(self@, Listing::Live).len(),
            forall|k: int| 0 <= k < r@.len() ==> {
                let m = #[trigger] listed_mirrors(self@, Listing::Live)[k];
                &&& r@[k].0@ == m.id@
                &&& m.onion_address matches Some(a) && r@[k].1@ == a@
                &&& r@[k].2@ == state_name(m.state)
            },
    {
        let infos = self.list(Listing::Live);
        let mut r: Vec<(String, String, String)> = Vec::new();
        let mut i: usize = 0;
        while i < infos.len()
            invariant
                i <= infos@.len(),
                infos@.len() == listed_mirrors(self@, Listing::Live).len(),
                forall|k: int| 0 <= k < infos@.len() ==> describes(#[trigger] infos@[k], listed_mirrors(self@, Listing::Live)[k]),
                r@.len() == i,
                forall|k: int| 0 <= k < i ==> {
                    let m = #[trigger] listed_mirrors(self@, Listing::Live)[k];
                    &&& r@[k].0@ == m.id@
                    &&& m.onion_address matches Some(a) && r@[k].1@ == a@
                    &&& r@[k].2@ == state_name(m.state)
                },
            decreases infos@.len() - i,
        {
            let info = &infos[i];
            proof {
                assert(describes(infos@[i as int], listed_mirrors(self@, Listing::Live)[i as int]));
            }
            r.push((info.id.clone(), info.onion_address.clone(), info.status.clone()));
            i = i + 1;
        }
        r
    }

    /// The onion addresses of the active mirrors.
    pub fn get_active_mirrors(&self) -> (r: Vec<String>)
        ensures
            r@.len() == active_with_onion(self@).len(),
            forall|k: int| 0 <= k < r@.len() ==> (active_with_onion(self@)[k].onion_address matches Some(a)
                && #[trigger] r@[k]@ == a@),
    {
        let ghost s = self@;
        let mut r: Vec<String> = Vec::new();
        let mut i: usize = 0;
        proof {
            reveal_with_fuel(Seq::filter, 1);
            assert(s.take(0) =~= Seq::<Mirror>::empty());
        }
        while i < self.mirrors.len()
            invariant
                s == self.mirrors@,
                i <= s.len(),
                r@.len() == active_with_onion(s.take(i as int)).len(),
                forall|k: int| 0 <= k < r@.len() ==> (active_with_onion(s.take(i as int))[k].onion_address matches Some(a)
                    && #[trigger] r@[k]@ == a@),
            decreases s.len() - i,
        {
            proof {
                reveal_with_fuel(Seq::filter, 1);
                assert(s.take(i + 1).drop_last() =~= s.take(i as int));
            }
            let m = &self.mirrors[i];
            if m.state == MirrorState::Active {
                match &m.onion_address {
                    Some(a) => {
                        let ghost r0 = r@;
                        r.push(a.clone());
                        proof {
                            assert forall|k: int| 0 <= k < r@.len() implies (active_with_onion(s.take(i + 1))[k].onion_address matches Some(a)
                                && #[trigger] r@[k]@ == a@) by {
                                if k < r0.len() {
                                    assert(r@[k] == r0[k]);
                                }
                            }
                        }
                    },
                    None => {},
                }
            }
            i = i + 1;
        }
        proof {
            assert(s.take(s.len() as int) =~= s);
        }
        r
    }
}


/// No timestamp of a mirror lies after `now`.
pub open spec fn times_ok(m: Mirror, now: u64) -> bool {
    &&& (m.resurrection_info matches Some(i) ==> (i.dormant_since <= now
        && (i.last_evaluation_at matches Some(t) ==> t <= now)
        && (i.restoration_started_at matches Some(t) ==> t <= now)))
    &&& (m.last_request_time matches Some(t) ==> t <= now)
}

/// A retiring mirror whose page has expired at `now` goes dormant.
pub open spec fn retire_step(m: Mirror, now: u64) -> Mirror {
    if m.state == MirrorState::Retiring && (m.retirement_info matches Some(ri) && now >= ri.page_expires_at) {
        gone_dormant(m, now)
    } else {
        m
    }
}

/// Whether a dormant mirror's evaluation is due: it has waited long enough
/// since going dormant and since its last evaluation.
pub open spec fn due_for_evaluation(i: ResurrectionInfo, now: u64, wait: u64) -> bool {
    now - i.dormant_since >= wait && match i.last_evaluation_at {
        Some(t) => now - t >= wait,
        None => true,
    }
}

/// Whether the attempts seen during an evaluation allow a restoration: few
/// attempts mean it is safe, a moderate number still allows a cautious one,
/// and only at the threat threshold does the mirror stay dormant.
pub open spec fn restore_verdict(attempts: u64, c: ResurrectionConfig) -> bool {
    attempts < c.safe_threshold_attempts || attempts < c.threat_threshold_attempts
}

/// The evaluation of a dormant mirror at `now`.
pub open spec fn evaluate_step(m: Mirror, now: u64, c: ResurrectionConfig) -> Mirror {
    match m.resurrection_info {
        Some(i) => if m.state == MirrorState::Dormant && due_for_evaluation(i, now, c.wait_after_burn_seconds) {
            let m1 = Mirror { resurrection_info: Some(evaluation_reset(i, now)), ..m };
            if restore_verdict(i.connection_attempts, c) { restoring(m1, now) } else { m1 }
        } else {
            m
        },
        None => m,
    }
}

/// The length of one restoration phase, in seconds.
pub open spec fn phase_length(c: ResurrectionConfig) -> int {
    (c.discovery_period.total_duration_hours * 3600) / 3
}

/// A restoring mirror moves to its next phase, or is restored after the last.
pub open spec fn phase_step(m: Mirror, now: u64, c: ResurrectionConfig) -> Mirror {
    if m.state == MirrorState::Restoring {
        match m.resurrection_info {
            Some(i) => match (i.restoration_started_at, i.restoration_phase) {
                (Some(t), Some(p)) => {
                    let elapsed = now - t;
                    let advanced = Mirror { resurrection_info: Some(phase_advanced(i)), ..m };
                    match p {
                        RestorationPhase::Phase1 => if elapsed >= phase_length(c) { advanced } else { m },
                        RestorationPhase::Phase2 => if elapsed >= 2 * phase_length(c) { advanced } else { m },
                        RestorationPhase::Phase3 => if elapsed >= c.discovery_period.total_duration_hours * 3600 {
                            restored(m)
                        } else {
                            m
                        },
                    }
                },
                _ => m,
            },
            None => m,
        }
    } else {
        m
    }
}

/// A mirror dormant for too many days is destroyed.
pub open spec fn expiry_step(m: Mirror, now: u64, c: ResurrectionConfig) -> Mirror {
    match m.resurrection_info {
        Some(i) => if m.state == MirrorState::Dormant && (now - i.dormant_since) / 86400 >= c.max_dormant_days {
            destroyed(m)
        } else {
            m
        },
        None => m,
    }
}

/// One resurrection pass over a mirror: evaluation, then phases, then expiry.
pub open spec fn resurrection_step(m: Mirror, now: u64, c: ResurrectionConfig) -> Mirror {
    if c.enabled {
        expiry_step(phase_step(evaluate_step(m, now, c), now, c), now, c)
    } else {
        m
    }
}

/// Whether the day arithmetic of a resurrection pass fits.
pub open spec fn resurrection_config_ok(c: ResurrectionConfig) -> bool {
    c.discovery_period.total_duration_hours * 3600 <= u64::MAX
}

fn evaluate_mirror(m: &mut Mirror, now: u64, c: &ResurrectionConfig)
    requires
        times_ok(*old(m), now),
    ensures
        *final(m) == evaluate_step(*old(m), now, *c),
        times_ok(*final(m), now),
{
    match m.resurrection_info {
        Some(i) => {
            if m.state == MirrorState::Dormant {
                let due = now - i.dormant_since >= c.wait_after_burn_seconds && match i.last_evaluation_at {
                    Some(t) => now - t >= c.wait_after_burn_seconds,
                    None => true,
                };
                if due {
                    let attempts = i.connection_attempts;
                    let mut info = i;
                    info.reset_evaluation_at(now);
                    m.resurrection_info = Some(info);
                    if attempts < c.safe_threshold_attempts || attempts < c.threat_threshold_attempts {
                        m.begin_restoration_at(now);
                    }
                }
            }
        },
        None => {},
    }
}

fn phase_mirror(m: &mut Mirror, now: u64, c: &ResurrectionConfig)
    requires
        times_ok(*old(m), now),
        resurrection_config_ok(*c),
    ensures
        *final(m) == phase_step(*old(m), now, *c),
        times_ok(*final(m), now),
{
    if m.state != MirrorState::Restoring {
        return;
    }
    let total: u64 = c.discovery_period.total_duration_hours * 3600;
    let phase_duration: u64 = total / 3;
    match m.resurrection_info {
        Some(i) => match (i.restoration_started_at, i.restoration_phase) {
            (Some(t), Some(p)) => {
                let elapsed = now - t;
                match p {
                    RestorationPhase::Phase1 => {
                        if elapsed >= phase_duration {
                            let mut info = i;
                            info.advance_phase();
                            m.resurrection_info = Some(info);
                        }
                    },
                    RestorationPhase::Phase2 => {
                        if elapsed >= phase_duration * 2 {
                            let mut info = i;
                            info.advance_phase();
                            m.resurrection_info = Some(info);
                        }
                    },
                    RestorationPhase::Phase3 => {
                        if elapsed >= total {
                            m.complete_restoration();
                        }
                    },
                }
            },
            _ => {},
        },
        None => {},
    }
}

fn expire_mirror(m: &mut Mirror, now: u64, c: &ResurrectionConfig)
    requires
        times_ok(*old(m), now),
    ensures
        *final(m) == expiry_step(*old(m), now, *c),
        times_ok(*final(m), now),
{
    match m.resurrection_info {
        Some(i) => {
            if m.state == MirrorState::Dormant && (now - i.dormant_since) / 86400 >= c.max_dormant_days {
                m.permanent_destroy();
            }
        },
        None => {},
    }
}

/// A mirror that is removed by the cleanup: burned, and idle for the
/// retention period (or never used).
pub open spec fn cleanable(m: Mirror, now: u64, c: SelfCleaningConfig) -> bool {
    m.state == MirrorState::Burned && match m.last_request_time {
        Some(t) => (now - t) / 86400 >= c.burned_mirror_retention_days,
        None => true,
    }
}

impl MirrorRegistry {
    /// Whether no mirror carries a timestamp after `now`.
    pub fn clock_consistent(&self, now: u64) -> (r: bool)
        ensures
            r == forall|k: int| 0 <= k < self@.len() ==> times_ok(#[trigger] self@[k], now),
    {
        let mut i: usize = 0;
        while i < self.mirrors.len()
            invariant
                i <= self.mirrors@.len(),
                forall|k: int| 0 <= k < i ==> times_ok(#[trigger] self.mirrors@[k], now),
            decreases self.mirrors@.len() - i,
        {
            let m = &self.mirrors[i];
            let ok_res = match m.resurrection_info {
                Some(info) => info.dormant_since <= now
                    && match info.last_evaluation_at {
                        Some(t) => t <= now,
                        None => true,
                    }
                    && match info.restoration_started_at {
                        Some(t) => t <= now,
                        None => true,
                    },
                None => true,
            };
            let ok_req = match m.last_request_time {
                Some(t) => t <= now,
                None => true,
            };
            if !(ok_res && ok_req) {
                proof {
                    assert(!times_ok(self@[i as int], now));
                }
                return false;
            }
            i = i + 1;
        }
        true
    }

    /// The retirement pass at `now`: retiring mirrors whose page has expired go dormant.
    pub fn retirement_tick(&mut self, now: u64)
        ensures
            final(self)@.len() == old(self)@.len(),
            forall|k: int| 0 <= k < old(self)@.len() ==> #[trigger] final(self)@[k] == retire_step(old(self)@[k], now),
    {
        let ghost s0 = self@;
        let mut i: usize = 0;
        while i < self.mirrors.len()
            invariant
                self@.len() == s0.len(),
                i <= s0.len(),
                forall|k: int| 0 <= k < i ==> #[trigger] self@[k] == retire_step(s0[k], now),
                forall|k: int| i <= k < s0.len() ==> #[trigger] self@[k] == s0[k],
            decreases s0.len() - i,
        {
            let expired = self.mirrors[i].state == MirrorState::Retiring && match self.mirrors[i].retirement_info {
                Some(ri) => ri.page_expired_at(now),
                None => false,
            };
            if expired {
                let ghost s1 = self@;
                let mut m = self.take_at(i);
                m.go_dormant_at(now);
                let ghost m1 = m;
                self.put_at(i, m);
                proof {
                    assert(self@ =~= s1.update(i as int, m1));
                }
            }
            i = i + 1;
        }
    }

    /// The resurrection pass at `now`: dormant mirrors due for evaluation are
    /// judged by the attempts they saw, restoring mirrors move through their
    /// phases, and mirrors dormant too long are destroyed.
    pub fn resurrection_tick(&mut self, now: u64, c: &ResurrectionConfig)
        requires
            forall|k: int| 0 <= k < old(self)@.len() ==> times_ok(#[trigger] old(self)@[k], now),
            resurrection_config_ok(*c),
        ensures
            final(self)@.len() == old(self)@.len(),
            forall|k: int| 0 <= k < old(self)@.len() ==> #[trigger] final(self)@[k] == resurrection_step(old(self)@[k], now, *c),
            forall|k: int| 0 <= k < final(self)@.len() ==> times_ok(#[trigger] final(self)@[k], now),
    {
        if !c.enabled {
            return;
        }
        let ghost s0 = self@;
        let mut i: usize = 0;
        while i < self.mirrors.len()
            invariant
                c.enabled,
                resurrection_config_ok(*c),
                self@.len() == s0.len(),
                i <= s0.len(),
                forall|k: int| 0 <= k < i ==> #[trigger] self@[k] == resurrection_step(s0[k], now, *c),
                forall|k: int| 0 <= k < i ==> times_ok(#[trigger] self@[k], now),
                forall|k: int| i <= k < s0.len() ==> #[trigger] self@[k] == s0[k],
                forall|k: int| 0 <= k < s0.len() ==> times_ok(#[trigger] s0[k], now),
            decreases s0.len() - i,
        {
            let ghost s1 = self@;
            let mut m = self.take_at(i);
            proof {
                assert(m == s0[i as int]);
            }
            evaluate_mirror(&mut m, now, c);
            phase_mirror(&mut m, now, c);
            expire_mirror(&mut m, now, c);
            let ghost m1 = m;
            self.put_at(i, m);
            proof {
                assert(self@ =~= s1.update(i as int, m1));
            }
            i = i + 1;
        }
    }

    /// The cleanup pass at `now`: burned mirrors past their retention are
    /// removed; their ids are given back in order.
    pub fn self_cleaning_tick(&mut self, now: u64, c: &SelfCleaningConfig) -> (removed: Vec<String>)
        requires
            forall|k: int| 0 <= k < old(self)@.len() ==> times_ok(#[trigger] old(self)@[k], now),
        ensures
            final(self)@ == old(self)@.filter(|m: Mirror| !cleanable(m, now, *c)),
            removed@.map_values(|s: String| s@) == old(self)@.filter(|m: Mirror| cleanable(m, now, *c)).map_values(|m: Mirror| m.id@),
    {
        let ghost s0 = self@;
        let total = self.mirrors.len();
        let mut rest: Vec<Mirror> = Vec::new();
        std::mem::swap(&mut rest, &mut self.mirrors);
        let mut removed: Vec<String> = Vec::new();
        let mut n: usize = 0;
        proof {
            reveal_with_fuel(Seq::filter, 1);
            assert(s0.take(0) =~= Seq::<Mirror>::empty());
            assert(rest@ =~= s0.skip(0));
            assert(removed@.map_values(|s: String| s@) =~= s0.take(0).filter(|m: Mirror| cleanable(m, now, *c)).map_values(|m: Mirror| m.id@));
        }
        while rest.len() > 0
            invariant
                n <= s0.len(),
                s0.len() == total,
                n + rest@.len() == s0.len(),
                rest@ == s0.skip(n as int),
                forall|k: int| 0 <= k < s0.len() ==> times_ok(#[trigger] s0[k], now),
                self@ == s0.take(n as int).filter(|m: Mirror| !cleanable(m, now, *c)),
                removed@.map_values(|s: String| s@) == s0.take(n as int).filter(|m: Mirror| cleanable(m, now, *c)).map_values(|m: Mirror| m.id@),
            decreases rest@.len(),
        {
            assert(n < s0.len());
            let m = rest.remove(0);
            proof {
                reveal_with_fuel(Seq::filter, 1);
                assert(m == s0[n as int]);
                assert(s0.take(n + 1).drop_last() =~= s0.take(n as int));
                assert(s0.take(n + 1).last() == s0[n as int]);
                assert(rest@ =~= s0.skip(n + 1));
                assert(times_ok(s0[n as int], now));
            }
            let gone = m.state == MirrorState::Burned && match m.last_request_time {
                Some(t) => (now - t) / 86400 >= c.burned_mirror_retention_days,
                None => true,
            };
            if gone {
                let ghost r0 = removed@;
                removed.push(m.id);
                proof {
                    assert(removed@.map_values(|s: String| s@) =~= r0.map_values(|s: String| s@).push(s0[n as int].id@));
                    assert(s0.take(n + 1).filter(|m: Mirror| cleanable(m, now, *c)) =~= s0.take(n as int).filter(|m: Mirror| cleanable(m, now, *c)).push(s0[n as int]));
                    assert(s0.take(n + 1).filter(|m: Mirror| cleanable(m, now, *c)).map_values(|m: Mirror| m.id@) =~= s0.take(n as int).filter(|m: Mirror| cleanable(m, now, *c)).map_values(|m: Mirror| m.id@).push(s0[n as int].id@));
                }
            } else {
                self.mirrors.push(m);
            }
            n = n + 1;
        }
        proof {
            assert(s0.take(s0.len() as int) =~= s0);
        }
        removed
    }
}


/// A paused mirror held in reserve.
pub open spec fn ready_standby(m: Mirror) -> bool {
    m.is_standby && m.state == MirrorState::Paused
}

/// An active mirror.
pub open spec fn is_active(m: Mirror) -> bool {
    m.state == MirrorState::Active
}

/// The number of reserve mirrors before position `i`.
pub open spec fn standby_rank(s: Seq<Mirror>, i: int) -> nat {
    s.take(i).filter(|m: Mirror| ready_standby(m)).len()
}

/// The first reserve mirror from position `k` on.
pub open spec fn first_standby_from(s: Seq<Mirror>, k: int) -> Option<int>
    decreases s.len() - k,
{
    if k < 0 || k >= s.len() {
        None
    } else if ready_standby(s[k]) {
        Some(k)
    } else {
        first_standby_from(s, k + 1)
    }
}

proof fn lemma_first_standby_in_range(s: Seq<Mirror>, k: int)
    requires
        0 <= k,
    ensures
        first_standby_from(s, k) matches Some(i) ==> k <= i < s.len() && ready_standby(s[i]),
    decreases s.len() - k,
{
    if k < s.len() && !ready_standby(s[k]) {
        lemma_first_standby_in_range(s, k + 1);
    }
}

/// The counts a scaling pass starts from, and whether it spawns a reserve mirror.
#[derive(Debug, Clone, Copy, PartialEq, Eq, Structural)]
pub struct ScalingPlan {
    pub active: usize,
    pub standby: usize,
    pub total: usize,
    /// Whether one more reserve mirror is to be spawned now.
    pub spawn_standby: bool,
}

/// Whether the reserve pool is to grow: below target and cap, room for
/// another mirror, resources and the spawn rate allowing it.
pub open spec fn wants_standby(standby: nat, total: nat, config: AutoScalingConfig, max_mirrors: usize, resources_ok: bool, spawn_allowed: bool) -> bool {
    &&& standby < config.target_standby
    &&& standby < config.max_standby
    &&& total < max_mirrors
    &&& (!config.resource_aware || resources_ok)
    &&& spawn_allowed
}

/// A scaling pass spawns a reserve mirror only while the registry holds
/// fewer than `max_mirrors` mirrors, the reserve is below both its target and
/// its cap, the spawn rate allows it and, when resources are watched, they
/// are fine: once `max_mirrors` mirrors exist, nothing more is spawned.
pub proof fn law_spawn_stays_under_caps(standby: nat, total: nat, config: AutoScalingConfig, max_mirrors: usize, resources_ok: bool, spawn_allowed: bool)
    ensures
        total >= max_mirrors ==> !wants_standby(standby, total, config, max_mirrors, resources_ok, spawn_allowed),
        wants_standby(standby, total, config, max_mirrors, resources_ok, spawn_allowed) ==> {
            &&& total < max_mirrors
            &&& standby < config.target_standby
            &&& standby < config.max_standby
            &&& spawn_allowed
            &&& (config.resource_aware ==> resources_ok)
        },
{
}

/// The registry after the first `excess` reserve mirrors are destroyed.
pub open spec fn trimmed_standby(s: Seq<Mirror>, excess: nat) -> Seq<Mirror> {
    Seq::new(s.len(), |i: int| if ready_standby(s[i]) && standby_rank(s, i) < excess { destroyed(s[i]) } else { s[i] })
}

impl MirrorRegistry {
    /// The number of mirrors that are active and that are held in reserve.
    pub fn counts(&self) -> (r: (usize, usize))
        ensures
            r.0 == self@.filter(|m: Mirror| is_active(m)).len(),
            r.1 == self@.filter(|m: Mirror| ready_standby(m)).len(),
    {
        let ghost s = self@;
        let mut a: usize = 0;
        let mut b: usize = 0;
        let mut i: usize = 0;
        proof {
            reveal_with_fuel(Seq::filter, 1);
            assert(s.take(0) =~= Seq::<Mirror>::empty());
        }
        while i < self.mirrors.len()
            invariant
                s == self.mirrors@,
                i <= s.len(),
                a <= i,
                b <= i,
                a == s.take(i as int).filter(|m: Mirror| is_active(m)).len(),
                b == s.take(i as int).filter(|m: Mirror| ready_standby(m)).len(),
            decreases s.len() - i,
        {
            proof {
                reveal_with_fuel(Seq::filter, 1);
                assert(s.take(i + 1).drop_last() =~= s.take(i as int));
            }
            if self.mirrors[i].state == MirrorState::Active {
                a = a + 1;
            }
            if self.mirrors[i].is_standby && self.mirrors[i].state == MirrorState::Paused {
                b = b + 1;
            }
            i = i + 1;
        }
        proof {
            assert(s.take(s.len() as int) =~= s);
        }
        (a, b)
    }

    /// Where the first reserve mirror stands.
    pub fn first_standby(&self) -> (r: Option<usize>)
        ensures
            r matches Some(i) ==> first_standby_from(self@, 0) == Some(i as int),
            r is None ==> first_standby_from(self@, 0) is None,
    {
        let mut i: usize = 0;
        while i < self.mirrors.len()
            invariant
                i <= self.mirrors@.len(),
                first_standby_from(self.mirrors@, 0) == first_standby_from(self.mirrors@, i as int),
            decreases self.mirrors@.len() - i,
        {
            if self.mirrors[i].is_standby && self.mirrors[i].state == MirrorState::Paused {
                return Some(i);
            }
            i = i + 1;
        }
        None
    }

    /// The first half of a scaling pass at `now`: counts the mirrors, notes a
    /// resource shortage in the limiter, and decides whether a reserve mirror
    /// is spawned (recording the spawn). The caller spawns it and registers it.
    pub fn auto_scaling_plan(
        &self,
        config: &AutoScalingConfig,
        limiter: &mut SpawnRateLimiter,
        max_mirrors: usize,
        resources_ok: bool,
        now: u64,
    ) -> (p: ScalingPlan)
        ensures
            p.active == self@.filter(|m: Mirror| is_active(m)).len(),
            p.standby == self@.filter(|m: Mirror| ready_standby(m)).len(),
            p.total == self@.len(),
            final(limiter).last_resource_limit_hit == if config.enabled && config.resource_aware && !resources_ok {
                Some(now)
            } else {
                old(limiter).last_resource_limit_hit
            },
            p.spawn_standby == (config.enabled && wants_standby(
                p.standby as nat,
                p.total as nat,
                *config,
                max_mirrors,
                resources_ok,
                !cooling(final(limiter).last_resource_limit_hit, config.spawn_cooldown_seconds, now)
                    && (last_minute(old(limiter).spawn_times@, now).len() as u32) < config.max_spawns_per_minute,
            )),
            final(limiter).spawn_times@ == if p.spawn_standby {
                last_minute(old(limiter).spawn_times@.push(now), now)
            } else {
                old(limiter).spawn_times@
            },
            final(limiter).activation_times == old(limiter).activation_times,
    {
        let (active, standby) = self.counts();
        let total = self.mirrors.len();
        if !config.enabled {
            return ScalingPlan { active, standby, total, spawn_standby: false };
        }
        let can_spawn = if config.resource_aware {
            if !resources_ok {
                limiter.record_resource_limit_at(now);
            }
            resources_ok
        } else {
            true
        };
        let spawn_allowed = limiter.can_spawn_at(config, now);
        let needs = standby < config.target_standby && standby < config.max_standby && total < max_mirrors
            && can_spawn && spawn_allowed;
        if needs {
            limiter.record_spawn_at(now);
        }
        ScalingPlan { active, standby, total, spawn_standby: needs }
    }

    /// The second half of a scaling pass at `now`: destroys reserve mirrors
    /// beyond the cap (first ones first), and if fewer mirrors than
    /// `min_mirrors` were active, puts the first reserve mirror into service
    /// when the activation rate allows. Gives back how many were destroyed
    /// and the id of the mirror put into service.
    pub fn auto_scaling_rebalance(
        &mut self,
        config: &AutoScalingConfig,
        limiter: &mut SpawnRateLimiter,
        plan: &ScalingPlan,
        min_mirrors: usize,
        now: u64,
    ) -> (r: (usize, Option<String>))
        ensures
            !config.enabled ==> final(self)@ == old(self)@ && r.0 == 0 && r.1 is None
                && *final(limiter) == *old(limiter),
            config.enabled ==> {
                let excess: nat = if plan.standby > config.max_standby { (plan.standby - config.max_standby) as nat } else { 0 };
                let trimmed = trimmed_standby(old(self)@, excess);
                let pick = first_standby_from(trimmed, 0);
                let activate = plan.active < min_mirrors && pick is Some
                    && (last_minute(old(limiter).activation_times@, now).len() as u32) < config.max_activations_per_minute;
                &&& r.0 == if old(self)@.filter(|m: Mirror| ready_standby(m)).len() < excess {
                    old(self)@.filter(|m: Mirror| ready_standby(m)).len()
                } else {
                    excess
                }
                &&& final(self)@ == if activate {
                    trimmed.update(pick->0, Mirror { is_standby: false, state: MirrorState::Active, ..trimmed[pick->0] })
                } else {
                    trimmed
                }
                &&& (r.1 matches Some(id) ==> activate && id == trimmed[pick->0].id)
                &&& (activate ==> r.1 is Some)
                &&& final(limiter).activation_times@ == if activate {
                    last_minute(old(limiter).activation_times@.push(now), now)
                } else {
                    old(limiter).activation_times@
                }
                &&& final(limiter).spawn_times == old(limiter).spawn_times
                &&& final(limiter).last_resource_limit_hit == old(limiter).last_resource_limit_hit
            },
    {
        if !config.enabled {
            return (0, None);
        }
        let ghost s0 = self@;
        let excess: usize = if plan.standby > config.max_standby { plan.standby - config.max_standby } else { 0 };
        let mut removed: usize = 0;
        let mut seen: usize = 0;
        let mut i: usize = 0;
        proof {
            reveal_with_fuel(Seq::filter, 1);
            assert(s0.take(0) =~= Seq::<Mirror>::empty());
        }
        while i < self.mirrors.len()
            invariant
                self@.len() == s0.len(),
                i <= s0.len(),
                seen <= i,
                seen == standby_rank(s0, i as int),
                removed == if seen < excess { seen } else { excess },
                forall|k: int| 0 <= k < i ==> #[trigger] self@[k] == trimmed_standby(s0, excess as nat)[k],
                forall|k: int| i <= k < s0.len() ==> #[trigger] self@[k] == s0[k],
            decreases s0.len() - i,
        {
            proof {
                reveal_with_fuel(Seq::filter, 1);
                assert(s0.take(i + 1).drop_last() =~= s0.take(i as int));
                assert(s0.take(i + 1).last() == s0[i as int]);
            }
            let ready = self.mirrors[i].is_standby && self.mirrors[i].state == MirrorState::Paused;
            if ready {
                if seen < excess {
                    let ghost s1 = self@;
                    let mut m = self.take_at(i);
                    m.permanent_destroy();
                    let ghost m1 = m;
                    self.put_at(i, m);
                    proof {
                        assert(self@ =~= s1.update(i as int, m1));
                    }
                    removed = removed + 1;
                }
                seen = seen + 1;
            }
            i = i + 1;
        }
        proof {
            assert(s0.take(s0.len() as int) =~= s0);
            assert(self@ =~= trimmed_standby(s0, excess as nat));
            assert(seen == s0.filter(|m: Mirror| ready_standby(m)).len());
            lemma_first_standby_in_range(self@, 0);
        }
        let ghost trimmed = self@;
        let mut activated: Option<String> = None;
        if plan.active < min_mirrors {
            let pick = self.first_standby();
            match pick {
                Some(k) => {
                    if limiter.can_activate_at(config, now) {
                        let mut m = self.take_at(k);
                        m.is_standby = false;
                        m.state = MirrorState::Active;
                        let id = m.id.clone();
                        let ghost m1 = m;
                        self.put_at(k, m);
                        proof {
                            assert(self@ =~= trimmed.update(k as int, m1));
                        }
                        limiter.record_activation_at(now);
                        activated = Some(id);
                    }
                },
                None => {},
            }
        }
        (removed, activated)
    }
}


/// No periodic pass brings a burned mirror back: retirement, resurrection
/// and trimming of the reserve leave it burned, and it admits no connection.
pub proof fn law_burned_mirror_stays_burned(m: Mirror, now: u64, c: ResurrectionConfig, random_percent: u8)
    requires
        m.state == MirrorState::Burned,
    ensures
        retire_step(m, now).state == MirrorState::Burned,
        resurrection_step(m, now, c).state == MirrorState::Burned,
        !crate::mirror::admits(resurrection_step(m, now, c), random_percent),
{
}

/// A due evaluation restores a dormant mirror that saw fewer attempts than
/// the safe threshold, and keeps one dormant that saw at least as many as
/// both thresholds; the attempt counter starts over either way.
pub proof fn law_evaluation_verdict(m: Mirror, now: u64, c: ResurrectionConfig)
    requires
        m.state == MirrorState::Dormant,
        m.resurrection_info matches Some(i) && due_for_evaluation(i, now, c.wait_after_burn_seconds),
    ensures
        ({
            let i = m.resurrection_info->0;
            &&& i.connection_attempts < c.safe_threshold_attempts ==> evaluate_step(m, now, c).state == MirrorState::Restoring
            &&& (i.connection_attempts >= c.safe_threshold_attempts && i.connection_attempts >= c.threat_threshold_attempts)
                ==> evaluate_step(m, now, c).state == MirrorState::Dormant
            &&& evaluate_step(m, now, c).resurrection_info matches Some(j) && j.connection_attempts == 0
                && j.last_evaluation_at == Some(now)
        }),
{
}

/// Restoration only moves forward: a phase pass either leaves a restoring
/// mirror where it is, moves it to a later phase, or (from the last phase
/// only) makes it active.
pub proof fn law_phase_pass_moves_forward(m: Mirror, now: u64, c: ResurrectionConfig)
    requires
        m.state == MirrorState::Restoring,
        m.resurrection_info matches Some(i) && i.restoration_phase is Some,
    ensures
        ({
            let p = m.resurrection_info->0.restoration_phase->0;
            let m2 = phase_step(m, now, c);
            ||| m2 == m
            ||| (m2.state == MirrorState::Restoring && (m2.resurrection_info matches Some(j)
                    && (j.restoration_phase matches Some(q) && crate::mirror::phase_rank(q) == crate::mirror::phase_rank(p) + 1)))
            ||| (p == RestorationPhase::Phase3 && m2 == restored(m))
        }),
{
}

/// What the loader makes of a directory under the Tor data directory.
#[derive(Debug, Clone, Copy, PartialEq, Eq, Structural)]
pub enum MirrorDir {
    /// Not a mirror's directory: skipped.
    NotAMirror,
    /// Still being created by some orchestrator: skipped.
    Initializing,
    /// Lacks its hostname or key and is older than 30 seconds: removed.
    Stale,
    /// Lacks its hostname or key but is recent: skipped for now.
    Incomplete,
    /// Complete: loaded.
    Complete,
}

/// How the loader classifies a directory, from its name and what it holds.
pub open spec fn mirror_dir_spec(name: Seq<char>, creating: bool, has_hostname: bool, has_private_key: bool, older_than_30s: bool) -> MirrorDir {
    if !has_prefix(name, "mirror-"@) { MirrorDir::NotAMirror }
    else if creating { MirrorDir::Initializing }
    else if !has_hostname || !has_private_key { if older_than_30s { MirrorDir::Stale } else { MirrorDir::Incomplete } }
    else { MirrorDir::Complete }
}

/// Whether a directory under the Tor data directory, `age` seconds old,
/// is left over from a mirror the registry `ms` no longer knows and has been
/// kept `retention_days` whole days.
pub open spec fn orphan_due(ms: Seq<Mirror>, name: Seq<char>, age: u64, retention_days: u64) -> bool {
    first_id(ms, name) is None && age / 86400 >= retention_days
}

/// The names, in order, of the directories (name, age in seconds) that are
/// due for removal as orphans.
pub open spec fn orphan_names(ms: Seq<Mirror>, dirs: Seq<(String, u64)>, retention_days: u64) -> Seq<Seq<char>>
    decreases dirs.len(),
{
    if dirs.len() == 0 {
        Seq::empty()
    } else {
        let rest = orphan_names(ms, dirs.drop_last(), retention_days);
        if orphan_due(ms, dirs.last().0@, dirs.last().1, retention_days) { rest.push(dirs.last().0@) } else { rest }
    }
}

/// Whether a temporary entry `age` seconds old is past the maximum age.
pub open spec fn temp_due(age: u64, max_age_hours: u64) -> bool {
    age > max_age_hours * 3600
}

/// The names, in order, of the temporary entries (name, age in seconds)
/// that are past the maximum age.
pub open spec fn temp_names(entries: Seq<(String, u64)>, max_age_hours: u64) -> Seq<Seq<char>>
    decreases entries.len(),
{
    if entries.len() == 0 {
        Seq::empty()
    } else {
        let rest = temp_names(entries.drop_last(), max_age_hours);
        if temp_due(entries.last().1, max_age_hours) { rest.push(entries.last().0@) } else { rest }
    }
}

impl MirrorRegistry {
    /// The second step of the cleanup pass: of the directories found under
    /// the Tor data directory, given as (name, age in seconds since last
    /// modified), those that belong to no mirror of the registry and are at
    /// least `retention_days` whole days old.
    pub fn orphan_dirs_to_remove(&self, dirs: &Vec<(String, u64)>, retention_days: u64) -> (r: Vec<String>)
        ensures
            views(r@) == orphan_names(self@, dirs@, retention_days),
    {
        let mut r: Vec<String> = Vec::new();
        let mut i: usize = 0;
        while i < dirs.len()
            invariant
                i <= dirs@.len(),
                views(r@) == orphan_names(self@, dirs@.take(i as int), retention_days),
            decreases dirs@.len() - i,
        {
            proof {
                assert(dirs@.take(i + 1).drop_last() =~= dirs@.take(i as int));
            }
            let d = &dirs[i];
            let known = self.find_id(d.0.as_str());
            if known.is_none() && d.1 / 86400 >= retention_days {
                let ghost r0 = r@;
                r.push(d.0.clone());
                proof {
                    assert(views(r@) =~= views(r0).push(d.0@));
                }
            }
            i = i + 1;
        }
        proof {
            assert(dirs@.take(dirs@.len() as int) =~= dirs@);
        }
        r
    }
}

/// The third step of the cleanup pass: of the entries found in the
/// temporary directories, given as (name, age in seconds since last
/// modified), those older than `max_age_hours` hours.
pub fn temp_entries_to_remove(entries: &Vec<(String, u64)>, max_age_hours: u64) -> (r: Vec<String>)
    requires
        max_age_hours * 3600 <= u64::MAX,
    ensures
        views(r@) == temp_names(entries@, max_age_hours),
{
    let max_age_secs = max_age_hours * 3600;
    let mut r: Vec<String> = Vec::new();
    let mut i: usize = 0;
    while i < entries.len()
        invariant
            i <= entries@.len(),
            max_age_secs == max_age_hours * 3600,
            views(r@) == temp_names(entries@.take(i as int), max_age_hours),
        decreases entries@.len() - i,
    {
        proof {
            assert(entries@.take(i + 1).drop_last() =~= entries@.take(i as int));
        }
        let e = &entries[i];
        if e.1 > max_age_secs {
            let ghost r0 = r@;
            r.push(e.0.clone());
            proof {
                assert(views(r@) =~= views(r0).push(e.0@));
            }
        }
        i = i + 1;
    }
    proof {
        assert(entries@.take(entries@.len() as int) =~= entries@);
    }
    r
}

/// Whether a directory found at startup has been left alone for more than
/// half a minute, given the whole seconds since it was last modified (none
/// when that time cannot be read or lies in the future).
pub fn older_than_30s(age_secs: Option<u64>) -> (r: bool)
    ensures
        r == (age_secs matches Some(a) && a > 30),
{
    match age_secs {
        Some(a) => a > 30,
        None => false,
    }
}

/// Classifies a directory found under the Tor data directory.
pub fn classify_mirror_dir(name: &str, creating: bool, has_hostname: bool, has_private_key: bool, older_than_30s: bool) -> (r: MirrorDir)
    ensures
        r == mirror_dir_spec(name@, creating, has_hostname, has_private_key, older_than_30s),
{
    if !starts_with(name, "mirror-") { MirrorDir::NotAMirror }
    else if creating { MirrorDir::Initializing }
    else if !has_hostname || !has_private_key { if older_than_30s { MirrorDir::Stale } else { MirrorDir::Incomplete } }
    else { MirrorDir::Complete }
}

/// How many mirrors to make so that `minimum` exist, counting the larger of
/// what this orchestrator holds and what is on disk.
pub fn mirrors_needed(minimum: usize, in_memory: usize, on_disk: usize) -> (n: usize)
    ensures
        n == if in_memory >= on_disk { sat_sub_usize(minimum, in_memory) } else { sat_sub_usize(minimum, on_disk) },
{
    let have = if in_memory >= on_disk { in_memory } else { on_disk };
    minimum.saturating_sub(have)
}

/// `a - b`, or zero when `b` is larger.
pub open spec fn sat_sub_usize(a: usize, b: usize) -> usize {
    if a >= b { (a - b) as usize } else { 0 }
}

/// A directory under the Tor data directory, as the mirror count sees it.
#[derive(Debug)]
pub struct DiskEntry {
    pub name: String,
    pub is_dir: bool,
    pub has_hostname: bool,
    /// The metadata file's text, when it exists and could be read.
    pub metadata: Option<String>,
}

/// Whether an entry counts as a mirror on disk, and then whether as a
/// standby: a directory named "mirror-..." with a hostname file; a standby
/// when its metadata is JSON with `is_standby` true.
pub open spec fn disk_kind(e: DiskEntry) -> Option<bool> {
    if !e.is_dir || !has_prefix(e.name@, "mirror-"@) || !e.has_hostname {
        None
    } else {
        Some(match e.metadata {
            Some(t) => json_bool_field(t@, "is_standby"@) == Some(Some(true)),
            None => false,
        })
    }
}

/// The mirrors on disk, as (active, standby) counts.
pub open spec fn disk_counts(es: Seq<DiskEntry>) -> (nat, nat) {
    (
        es.filter(|e: DiskEntry| disk_kind(e) == Some(false)).len(),
        es.filter(|e: DiskEntry| disk_kind(e) == Some(true)).len(),
    )
}

/// Counts the mirrors on disk, so that several orchestrators sharing a
/// data directory see each other's mirrors.
pub fn count_mirrors_on_disk(entries: &Vec<DiskEntry>) -> (r: (usize, usize))
    ensures
        (r.0 as nat, r.1 as nat) == disk_counts(entries@),
{
    let mut active: usize = 0;
    let mut standby: usize = 0;
    let mut i: usize = 0;
    proof {
        reveal_with_fuel(Seq::filter, 1);
        assert(entries@.take(0) =~= Seq::<DiskEntry>::empty());
    }
    while i < entries.len()
        invariant
            i <= entries@.len(),
            active <= i && standby <= i,
            (active as nat, standby as nat) == disk_counts(entries@.take(i as int)),
        decreases entries@.len() - i,
    {
        let e = &entries[i];
        proof {
            reveal_with_fuel(Seq::filter, 1);
            assert(entries@.take(i + 1).drop_last() =~= entries@.take(i as int));
            assert(entries@.take(i + 1).last() == *e);
        }
        if e.is_dir && starts_with(e.name.as_str(), "mirror-") && e.has_hostname {
            let is_standby = match &e.metadata {
                Some(t) => match read_json_bool_field(t.as_str(), "is_standby") {
                    Some(Some(b)) => b,
                    _ => false,
                },
                None => false,
            };
            if is_standby { standby = standby + 1; } else { active = active + 1; }
        }
        i = i + 1;
    }
    proof {
        assert(entries@.take(entries@.len() as int) =~= entries@);
    }
    (active, standby)
}

/// The id of a new mirror made from a random number: "mirror-" and the
/// number in eight lower-case hexadecimal digits.
pub fn mirror_id_for(random: u32) -> (id: String)
    ensures
        id@ == "mirror-"@ + crate::admin::hex_padded(random as nat, 8),
{
    concat_str("mirror-", crate::admin::u64_to_hex_padded(random as u64, 8).as_str())
}

/// The id of a new mirror, from a random number.
pub fn generate_mirror_id() -> (id: String)
    ensures
        exists|r: u32| id@ == "mirror-"@ + #[trigger] crate::admin::hex_padded(r as nat, 8),
{
    let r = crate::random::random_u32();
    mirror_id_for(r)
}

/// A mirror's age at `now`; one created after `now` counts as new.
pub open spec fn age_at(m: Mirror, now: u64) -> u64 {
    if now >= m.created_at { (now - m.created_at) as u64 } else { 0 }
}

/// Whether a mirror is due for rotation at `now`: active and at least
/// `interval` seconds old.
pub open spec fn rotation_due(m: Mirror, now: u64, interval: u64) -> bool {
    m.state == MirrorState::Active && age_at(m, now) >= interval
}

/// Whether mirror `i` is the one to rotate: due, the oldest of the due
/// mirrors, and the last of them on a tie.
pub open spec fn rotation_pick(s: Seq<Mirror>, now: u64, interval: u64, i: int) -> bool {
    &&& 0 <= i < s.len()
    &&& rotation_due(s[i], now, interval)
    &&& forall|j: int| 0 <= j < s.len() && #[trigger] rotation_due(s[j], now, interval) ==> age_at(s[j], now) <= age_at(s[i], now)
    &&& forall|j: int| i < j < s.len() && #[trigger] rotation_due(s[j], now, interval) ==> age_at(s[j], now) < age_at(s[i], now)
}

impl MirrorRegistry {
    /// The id of the mirror to rotate at `now`: the oldest active mirror at
    /// least `interval` seconds old, if any.
    pub fn rotation_candidate_at(&self, now: u64, interval: u64) -> (r: Option<String>)
        ensures
            r is None <==> forall|j: int| 0 <= j < self@.len() ==> !#[trigger] rotation_due(self@[j], now, interval),
            r matches Some(id) ==> exists|i: int| #[trigger] rotation_pick(self@, now, interval, i) && id@ == self@[i].id@,
    {
        let ghost s = self@;
        let mut best: Option<usize> = None;
        let mut i: usize = 0;
        while i < self.mirrors.len()
            invariant
                s == self@,
                i <= s.len(),
                best is None ==> forall|j: int| 0 <= j < i ==> !#[trigger] rotation_due(s[j], now, interval),
                best matches Some(b) ==> b < i && rotation_due(s[b as int], now, interval)
                    && (forall|j: int| 0 <= j < i && #[trigger] rotation_due(s[j], now, interval) ==> age_at(s[j], now) <= age_at(s[b as int], now))
                    && (forall|j: int| b < j < i && #[trigger] rotation_due(s[j], now, interval) ==> age_at(s[j], now) < age_at(s[b as int], now)),
            decreases s.len() - i,
        {
            let m = &self.mirrors[i];
            let age = now.saturating_sub(m.created_at);
            if m.state == MirrorState::Active && age >= interval {
                match best {
                    None => { best = Some(i); },
                    Some(b) => {
                        let bage = now.saturating_sub(self.mirrors[b].created_at);
                        if age >= bage {
                            best = Some(i);
                        }
                    },
                }
            }
            i = i + 1;
        }
        match best {
            None => None,
            Some(b) => {
                proof {
                    assert(rotation_pick(s, now, interval, b as int));
                }
                Some(self.mirrors[b].id.clone())
            },
        }
    }

    /// The ids of the mirrors being burned, in order.
    pub fn burning_mirror_ids(&self) -> (r: Vec<String>)
        ensures
            crate::text::views(r@) == self@.filter(|m: Mirror| m.state == MirrorState::Burning).map_values(|m: Mirror| m.id@),
    {
        let ghost s = self@;
        let mut r: Vec<String> = Vec::new();
        let mut i: usize = 0;
        proof {
            reveal_with_fuel(Seq::filter, 1);
            assert(s.take(0) =~= Seq::<Mirror>::empty());
            assert(crate::text::views(r@) =~= Seq::<Seq<char>>::empty());
        }
        while i < self.mirrors.len()
            invariant
                s == self@,
                i <= s.len(),
                crate::text::views(r@) == s.take(i as int).filter(|m: Mirror| m.state == MirrorState::Burning).map_values(|m: Mirror| m.id@),
            decreases s.len() - i,
        {
            let m = &self.mirrors[i];
            let ghost before = r@;
            proof {
                reveal_with_fuel(Seq::filter, 1);
                assert(s.take(i + 1).drop_last() =~= s.take(i as int));
                assert(s.take(i + 1).last() == *m);
            }
            if m.state == MirrorState::Burning {
                r.push(m.id.clone());
                proof {
                    let f = s.take(i as int).filter(|m: Mirror| m.state == MirrorState::Burning);
                    assert(f.push(*m).map_values(|m: Mirror| m.id@) =~= f.map_values(|m: Mirror| m.id@).push(m.id@));
                    assert(crate::text::views(r@) =~= crate::text::views(before).push(m.id@));
                }
            }
            i = i + 1;
        }
        proof {
            assert(s.take(s.len() as int) =~= s);
        }
        r
    }
}

} // verus!
