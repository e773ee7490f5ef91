//! The backend node: per-session rate limiting, violation tracking and the
//! decision whether a request is forwarded, refused or sent back to the CAPTCHA gateway.

use vstd::prelude::*;
use crate::clock::unix_time_secs;
use crate::strmap::StrMap;
use crate::gateway::view_opt_str;
use crate::tier::{lowercase, to_lowercase};
use crate::text::{views, split_on, split_char, trimmed, trim, starts_with, owned, str_eq, has_infix, contains_str, has_prefix, strip_prefix, parse_usize, parse_usize_spec};

verus! {

/// Errors of request processing on a node.
#[derive(Debug)]
pub enum NodeError {
    SessionNotFound,
    BackendUnavailable,
    ViolationDetected(String),
    RateLimitExceeded,
}

/// The message each error displays.
pub open spec fn node_error_message(e: NodeError) -> Seq<char> {
    match e {
        NodeError::SessionNotFound => "Session not found"@,
        NodeError::BackendUnavailable => "Backend unavailable"@,
        NodeError::ViolationDetected(m) => "Violation detected: "@ + m@,
        NodeError::RateLimitExceeded => "Rate limit exceeded"@,
    }
}

impl NodeError {
    /// The error's message.
    pub fn message(&self) -> (s: String)
        ensures
            s@ == node_error_message(*self),
    {
        proof {
            reveal_strlit("Session not found");
            reveal_strlit("Backend unavailable");
            reveal_strlit("Violation detected: ");
            reveal_strlit("Rate limit exceeded");
        }
        match self {
            NodeError::SessionNotFound => owned("Session not found"),
            NodeError::BackendUnavailable => owned("Backend unavailable"),
            NodeError::ViolationDetected(m) => {
                let mut s = owned("Violation detected: ");
                s.append(m.as_str());
                s
            },
            NodeError::RateLimitExceeded => owned("Rate limit exceeded"),
        }
    }
}

/// How closely a node inspects traffic.
#[derive(Debug, Clone, Copy, PartialEq, Eq, Structural)]
pub enum NodeMode {
    /// Fast path, minimal inspection.
    Healthy,
    /// Additional scrutiny and a tighter rate limit.
    Threat,
}

/// Requests per session and minute that a mode admits.
pub open spec fn mode_limit(m: NodeMode) -> nat {
    match m {
        NodeMode::Healthy => 20,
        NodeMode::Threat => 10,
    }
}

/// Seconds a request may take in a mode.
pub open spec fn mode_timeout_secs(m: NodeMode) -> u64 {
    match m {
        NodeMode::Healthy => 30,
        NodeMode::Threat => 10,
    }
}

impl NodeMode {
    /// Paths are inspected only in threat mode.
    pub fn should_inspect_deeply(&self) -> (r: bool)
        ensures
            r == (*self == NodeMode::Threat),
    {
        match self {
            NodeMode::Threat => true,
            NodeMode::Healthy => false,
        }
    }

    /// The per-minute request limit of a session.
    pub fn max_requests_per_minute(&self) -> (r: u32)
        ensures
            r == mode_limit(*self),
    {
        match self {
            NodeMode::Healthy => 20,
            NodeMode::Threat => 10,
        }
    }

    /// The request timeout, in seconds.
    pub fn request_timeout(&self) -> (r: u64)
        ensures
            r == mode_timeout_secs(*self),
    {
        match self {
            NodeMode::Healthy => 30,
            NodeMode::Threat => 10,
        }
    }
}

/// What a node found wrong with a request.
#[derive(Debug, Clone, Copy, PartialEq, Eq, Structural)]
pub enum ViolationType {
    RateLimitExceeded,
    MalformedRequest,
    SuspiciousPattern,
    InvalidPath,
    OversizedRequest,
}

/// How much each kind of violation weighs.
pub open spec fn severity_of(v: ViolationType) -> u32 {
    match v {
        ViolationType::RateLimitExceeded => 1,
        ViolationType::MalformedRequest => 2,
        ViolationType::SuspiciousPattern => 3,
        ViolationType::InvalidPath => 1,
        ViolationType::OversizedRequest => 2,
    }
}

impl ViolationType {
    /// The violation's weight.
    pub fn severity(&self) -> (r: u32)
        ensures
            r == severity_of(*self),
    {
        match self {
            ViolationType::RateLimitExceeded => 1,
            ViolationType::MalformedRequest => 2,
            ViolationType::SuspiciousPattern => 3,
            ViolationType::InvalidPath => 1,
            ViolationType::OversizedRequest => 2,
        }
    }
}

/// One recorded violation.
#[derive(Debug)]
pub struct Violation {
    pub violation_type: ViolationType,
    pub session_id: String,
    /// Seconds since the Unix epoch.
    pub timestamp: u64,
    pub description: String,
}

/// A violation as plain values.
pub struct ViolationView {
    pub violation_type: ViolationType,
    pub session_id: Seq<char>,
    pub timestamp: u64,
    pub description: Seq<char>,
}

impl View for Violation {
    type V = ViolationView;

    open spec fn view(&self) -> ViolationView {
        ViolationView {
            violation_type: self.violation_type,
            session_id: self.session_id@,
            timestamp: self.timestamp,
            description: self.description@,
        }
    }
}

impl Violation {
    /// A violation stamped with the given time.
    pub fn new_at(violation_type: ViolationType, session_id: String, description: String, timestamp: u64) -> (v: Self)
        ensures
            v.violation_type == violation_type,
            v.session_id == session_id,
            v.description == description,
            v.timestamp == timestamp,
    {
        Violation { violation_type, session_id, timestamp, description }
    }

    /// A violation stamped with the current time; the time comes from the
    /// system clock, so nothing is claimed of it.
    pub fn new(violation_type: ViolationType, session_id: String, description: String) -> (v: Self)
        ensures
            v.violation_type == violation_type,
            v.session_id == session_id,
            v.description == description,
    {
        let timestamp = unix_time_secs();
        Violation::new_at(violation_type, session_id, description, timestamp)
    }
}

fn copy_violation(v: &Violation) -> (r: Violation)
    ensures
        r == *v,
{
    Violation {
        violation_type: v.violation_type,
        session_id: v.session_id.clone(),
        timestamp: v.timestamp,
        description: v.description.clone(),
    }
}

/// Node configuration.
pub struct NodeConfig {
    pub mode: NodeMode,
    pub bind_addr: String,
    pub backend_address: String,
    pub gate_address: String,
    pub socks_proxy: Option<String>,
    pub max_request_size: usize,
    pub violation_threshold: u32,
    pub promotion_threshold: u32,
}

impl Default for NodeConfig {
    fn default() -> (c: Self)
        ensures
            c.mode == NodeMode::Healthy,
            c.bind_addr@ == "0.0.0.0:8083"@,
            c.backend_address@ == "http://127.0.0.1:9000"@,
            c.gate_address@ == "http://127.0.0.1:8081"@,
            c.socks_proxy.is_none(),
            c.max_request_size == 10 * 1024 * 1024,
            c.violation_threshold == 3,
            c.promotion_threshold == 50,
    {
        NodeConfig {
            mode: NodeMode::Healthy,
            bind_addr: owned("0.0.0.0:8083"),
            backend_address: owned("http://127.0.0.1:9000"),
            gate_address: owned("http://127.0.0.1:8081"),
            socks_proxy: None,
            max_request_size: 10 * 1024 * 1024,
            violation_threshold: 3,
            promotion_threshold: 50,
        }
    }
}


/// Requests past the limit that a clean session may still make once.
pub const BURST_MAX_COUNT: u32 = 20;

/// Seconds for which a recorded violation counts.
pub const VIOLATION_TTL_SECS: u64 = 300;

/// A node's bookkeeping as plain values.
pub struct NodeView {
    /// Requests seen per session in the current minute.
    pub counts: Map<Seq<char>, u32>,
    /// Whether each session has spent its one burst allowance.
    pub bursts: Map<Seq<char>, bool>,
    /// Recorded violations, oldest first.
    pub violations: Seq<ViolationView>,
}

/// The number a count map holds for a key, zero when absent.
pub open spec fn count_in(m: Map<Seq<char>, u32>, k: Seq<char>) -> nat {
    if m.contains_key(k) { m[k] as nat } else { 0 }
}

/// Whether a session has used its burst allowance.
pub open spec fn burst_used_in(m: Map<Seq<char>, bool>, k: Seq<char>) -> bool {
    m.contains_key(k) && m[k]
}

/// The violations of one session.
pub open spec fn of_session(vs: Seq<ViolationView>, sid: Seq<char>) -> Seq<ViolationView> {
    vs.filter(|v: ViolationView| v.session_id == sid)
}

/// The number of violations a session has.
pub open spec fn violation_count_of(v: NodeView, sid: Seq<char>) -> nat {
    of_session(v.violations, sid).len()
}

/// One rate-limit check: the session's count goes up by one; a request
/// over the limit is still admitted once for a clean session whose count
/// has not passed the burst ceiling.
pub open spec fn rate_step(v: NodeView, sid: Seq<char>, limit: nat) -> (NodeView, bool) {
    let c = count_in(v.counts, sid) + 1;
    let v1 = NodeView { counts: v.counts.insert(sid, c as u32), ..v };
    if c <= limit {
        (v1, true)
    } else if violation_count_of(v, sid) == 0 && c <= BURST_MAX_COUNT {
        (NodeView { bursts: v.bursts.insert(sid, true), ..v1 }, !burst_used_in(v.bursts, sid))
    } else {
        (v1, false)
    }
}

/// A violation record as plain values.
pub open spec fn violation_of(kind: ViolationType, sid: Seq<char>, now: u64, description: Seq<char>) -> ViolationView {
    ViolationView { violation_type: kind, session_id: sid, timestamp: now, description }
}

/// The state after one more violation is recorded.
pub open spec fn with_violation(v: NodeView, w: ViolationView) -> NodeView {
    NodeView { violations: v.violations.push(w), ..v }
}

/// The first suspicious pattern that a path holds, in the order checked.
pub open spec fn suspicious_pattern(path: Seq<char>) -> Option<Seq<char>> {
    if has_infix(path, "../"@) {
        Some("../"@)
    } else if has_infix(path, "..\\"@) {
        Some("..\\"@)
    } else if has_infix(path, "<script"@) {
        Some("<script"@)
    } else if has_infix(path, "' OR "@) {
        Some("' OR "@)
    } else if has_infix(path, "DROP TABLE"@) {
        Some("DROP TABLE"@)
    } else {
        None
    }
}

/// A path is suspicious exactly when it contains one of the five attack
/// patterns "../", "..\\", "<script", "' OR " and "DROP TABLE", and the
/// pattern reported is one that occurs in it.
pub proof fn law_attack_patterns_are_caught(path: Seq<char>)
    ensures
        suspicious_pattern(path) is Some <==> (
            has_infix(path, "../"@) || has_infix(path, "..\\"@) || has_infix(path, "<script"@)
            || has_infix(path, "' OR "@) || has_infix(path, "DROP TABLE"@)),
        suspicious_pattern(path) matches Some(p) ==> has_infix(path, p) && (p == "../"@ || p == "..\\"@
            || p == "<script"@ || p == "' OR "@ || p == "DROP TABLE"@),
{
}

/// Whether a declared content length exceeds the limit; a length that does
/// not parse is no violation.
pub open spec fn oversized(content_length: Option<Seq<char>>, max: usize) -> bool {
    match content_length {
        Some(s) => match parse_usize_spec(s) {
            Some(n) => n > max,
            None => false,
        },
        None => false,
    }
}

/// Whether a violation still counts at time `now`.
pub open spec fn is_recent(w: ViolationView, now: u64) -> bool {
    w.timestamp <= now && now - w.timestamp < VIOLATION_TTL_SECS
}

/// The views of a list of violations.
pub open spec fn violation_views(vs: Seq<Violation>) -> Seq<ViolationView> {
    vs.map_values(|w: Violation| w@)
}

/// What the node does with a request of a known session.
#[derive(Debug)]
pub enum NodeAction {
    /// Send the client back to the CAPTCHA gateway and clear its session cookie.
    RedirectToGate,
    /// Refuse with 403 and the error's message.
    Reject(NodeError),
    /// Pass the request on to the backend.
    Forward,
}

/// Counters of what a node has done.
#[derive(Clone, Copy, Debug, PartialEq, Eq, Structural)]
pub struct NodeMetrics {
    pub requests_total: u64,
    pub requests_forwarded: u64,
    pub requests_blocked: u64,
    pub violations_detected: u64,
    pub sessions_demoted: u64,
    pub sessions_promoted: u64,
    pub backend_errors: u64,
}

impl NodeMetrics {
    /// All counters at zero.
    pub open spec fn zero() -> NodeMetrics {
        NodeMetrics {
            requests_total: 0,
            requests_forwarded: 0,
            requests_blocked: 0,
            violations_detected: 0,
            sessions_demoted: 0,
            sessions_promoted: 0,
            backend_errors: 0,
        }
    }

    /// The counters after `k` more violations.
    pub open spec fn plus_violations(self, k: int) -> NodeMetrics {
        NodeMetrics { violations_detected: (self.violations_detected + k) as u64, ..self }
    }

    /// The counters after one more request, forwarded or blocked.
    pub open spec fn plus_request(self, forwarded: bool) -> NodeMetrics {
        if forwarded {
            NodeMetrics {
                requests_total: (self.requests_total + 1) as u64,
                requests_forwarded: (self.requests_forwarded + 1) as u64,
                ..self
            }
        } else {
            NodeMetrics {
                requests_total: (self.requests_total + 1) as u64,
                requests_blocked: (self.requests_blocked + 1) as u64,
                ..self
            }
        }
    }

    /// Counters that all start at zero.
    pub fn new() -> (m: Self)
        ensures
            m == NodeMetrics::zero(),
    {
        NodeMetrics {
            requests_total: 0,
            requests_forwarded: 0,
            requests_blocked: 0,
            violations_detected: 0,
            sessions_demoted: 0,
            sessions_promoted: 0,
            backend_errors: 0,
        }
    }

    /// Counts a request, forwarded or blocked.
    pub fn record_request(&mut self, forwarded: bool)
        requires
            old(self).requests_total < u64::MAX,
            forwarded ==> old(self).requests_forwarded < u64::MAX,
            !forwarded ==> old(self).requests_blocked < u64::MAX,
        ensures
            *final(self) == old(self).plus_request(forwarded),
    {
        self.requests_total = self.requests_total + 1;
        if forwarded {
            self.requests_forwarded = self.requests_forwarded + 1;
        } else {
            self.requests_blocked = self.requests_blocked + 1;
        }
    }

    /// Counts a violation.
    pub fn record_violation(&mut self)
        requires
            old(self).violations_detected < u64::MAX,
        ensures
            *final(self) == old(self).plus_violations(1),
    {
        self.violations_detected = self.violations_detected + 1;
    }

    /// Counts a demoted session.
    pub fn record_demotion(&mut self)
        requires
            old(self).sessions_demoted < u64::MAX,
        ensures
            *final(self) == (NodeMetrics { sessions_demoted: (old(self).sessions_demoted + 1) as u64, ..*old(self) }),
    {
        self.sessions_demoted = self.sessions_demoted + 1;
    }

    /// Counts a promoted session.
    pub fn record_promotion(&mut self)
        requires
            old(self).sessions_promoted < u64::MAX,
        ensures
            *final(self) == (NodeMetrics { sessions_promoted: (old(self).sessions_promoted + 1) as u64, ..*old(self) }),
    {
        self.sessions_promoted = self.sessions_promoted + 1;
    }

    /// Counts a failed call to the backend.
    pub fn record_backend_error(&mut self)
        requires
            old(self).backend_errors < u64::MAX,
        ensures
            *final(self) == (NodeMetrics { backend_errors: (old(self).backend_errors + 1) as u64, ..*old(self) }),
    {
        self.backend_errors = self.backend_errors + 1;
    }
}

/// The decision core of a backend node.
pub struct Node {
    config: NodeConfig,
    violations: Vec<Violation>,
    request_counts: StrMap<u32>,
    burst_exceptions: StrMap<bool>,
    metrics: NodeMetrics,
}

impl View for Node {
    type V = NodeView;

    closed spec fn view(&self) -> NodeView {
        NodeView {
            counts: self.request_counts.map(),
            bursts: self.burst_exceptions.map(),
            violations: violation_views(self.violations@),
        }
    }
}

impl Node {
    /// The node's configuration.
    pub closed spec fn cfg(&self) -> NodeConfig {
        self.config
    }

    /// The node's counters.
    pub closed spec fn counters(&self) -> NodeMetrics {
        self.metrics
    }

    /// The maps behind the view are well formed.
    pub closed spec fn wf(&self) -> bool {
        self.request_counts.wf() && self.burst_exceptions.wf()
    }

    /// A node with no sessions seen.
    pub fn new(config: NodeConfig) -> (n: Self)
        ensures
            n.wf(),
            n.cfg() == config,
            n@.counts == Map::<Seq<char>, u32>::empty(),
            n@.bursts == Map::<Seq<char>, bool>::empty(),
            n@.violations == Seq::<ViolationView>::empty(),
            n.counters() == NodeMetrics::zero(),
    {
        let n = Node {
            config,
            violations: Vec::new(),
            request_counts: StrMap::new(),
            burst_exceptions: StrMap::new(),
            metrics: NodeMetrics::new(),
        };
        proof {
            assert(violation_views(n.violations@) =~= Seq::<ViolationView>::empty());
        }
        n
    }

    /// The operating mode.
    pub fn mode(&self) -> (m: NodeMode)
        ensures
            m == self.cfg().mode,
    {
        self.config.mode
    }

    /// A copy of the node's counters.
    pub fn get_metrics(&self) -> (m: NodeMetrics)
        ensures
            m == self.counters(),
    {
        self.metrics
    }

    /// Counts a request whose outcome is known: forwarded to the backend or
    /// blocked.
    pub fn count_request(&mut self, forwarded: bool)
        requires
            old(self).counters().requests_total < u64::MAX,
            forwarded ==> old(self).counters().requests_forwarded < u64::MAX,
            !forwarded ==> old(self).counters().requests_blocked < u64::MAX,
        ensures
            final(self).counters() == old(self).counters().plus_request(forwarded),
            final(self)@ == old(self)@,
            final(self).cfg() == old(self).cfg(),
            final(self).wf() == old(self).wf(),
    {
        self.metrics.record_request(forwarded);
    }

    /// Counts a failed call to the backend.
    pub fn count_backend_error(&mut self)
        requires
            old(self).counters().backend_errors < u64::MAX,
        ensures
            final(self).counters() == (NodeMetrics { backend_errors: (old(self).counters().backend_errors + 1) as u64, ..old(self).counters() }),
            final(self)@ == old(self)@,
            final(self).cfg() == old(self).cfg(),
            final(self).wf() == old(self).wf(),
    {
        self.metrics.record_backend_error();
    }
}


/// How the checks on a request came out.
pub enum CheckResult {
    Passed,
    RateLimited,
    Oversized,
    SuspiciousPath(Seq<char>),
}

/// The checks a request goes through, in order: the rate limit, the declared
/// size, and (in threat mode) the path. The first that fails records a
/// violation and ends the checks.
pub open spec fn check_step(
    v: NodeView,
    cfg: NodeConfig,
    sid: Seq<char>,
    path: Seq<char>,
    content_length: Option<Seq<char>>,
    now: u64,
) -> (NodeView, CheckResult) {
    let (v1, admitted) = rate_step(v, sid, mode_limit(cfg.mode));
    if !admitted {
        (with_violation(v1, violation_of(ViolationType::RateLimitExceeded, sid, now, "Rate limit exceeded"@)), CheckResult::RateLimited)
    } else if oversized(content_length, cfg.max_request_size) {
        (with_violation(v1, violation_of(ViolationType::OversizedRequest, sid, now, "Request too large"@)), CheckResult::Oversized)
    } else if cfg.mode == NodeMode::Threat && suspicious_pattern(path) is Some {
        (
            with_violation(v1, violation_of(ViolationType::InvalidPath, sid, now, "Invalid path"@)),
            CheckResult::SuspiciousPath(suspicious_pattern(path)->0),
        )
    } else {
        (v1, CheckResult::Passed)
    }
}

/// The error that reports a failed check.
pub open spec fn reports(e: NodeError, c: CheckResult) -> bool {
    match c {
        CheckResult::Passed => false,
        CheckResult::RateLimited => e is RateLimitExceeded,
        CheckResult::Oversized => e matches NodeError::ViolationDetected(m) && m@ == "Request too large"@,
        CheckResult::SuspiciousPath(p) => e matches NodeError::ViolationDetected(m) && m@ == "Suspicious pattern: "@ + p,
    }
}

impl Node {
    /// Requests seen from a session in the current minute.
    pub fn request_count(&self, session_id: &str) -> (n: u32)
        requires
            self.wf(),
        ensures
            n == count_in(self@.counts, session_id@),
    {
        match self.request_counts.get(session_id) {
            Some(c) => *c,
            None => 0,
        }
    }

    /// The number of violations recorded for a session.
    pub fn get_violation_count(&self, session_id: &str) -> (n: usize)
        ensures
            n == violation_count_of(self@, session_id@),
    {
        let ghost vs = self.violations@;
        let mut n: usize = 0;
        let mut i: usize = 0;
        proof {
            reveal_with_fuel(Seq::filter, 1);
            assert(violation_views(vs.take(0)) =~= Seq::<ViolationView>::empty());
        }
        while i < self.violations.len()
            invariant
                vs == self.violations@,
                i <= vs.len(),
                n <= i,
                n == of_session(violation_views(vs.take(i as int)), session_id@).len(),
            decreases vs.len() - i,
        {
            proof {
                reveal_with_fuel(Seq::filter, 1);
                assert(violation_views(vs.take(i + 1)).drop_last() =~= violation_views(vs.take(i as int)));
                assert(violation_views(vs.take(i + 1)).last() == vs[i as int]@);
            }
            if str_eq(self.violations[i].session_id.as_str(), session_id) {
                n = n + 1;
            }
            i = i + 1;
        }
        proof {
            assert(vs.take(vs.len() as int) =~= vs);
        }
        n
    }

    /// Counts a request and decides whether the session is within its
    /// per-minute limit; a clean session gets one request of grace past it.
    pub fn check_rate_limit(&mut self, session_id: &str) -> (r: Result<(), NodeError>)
        requires
            old(self).wf(),
            count_in(old(self)@.counts, session_id@) < u32::MAX,
        ensures
            final(self).wf(),
            final(self).cfg() == old(self).cfg(),
            final(self)@ == rate_step(old(self)@, session_id@, mode_limit(old(self).cfg().mode)).0,
            r is Ok == rate_step(old(self)@, session_id@, mode_limit(old(self).cfg().mode)).1,
            r is Err ==> r->Err_0 is RateLimitExceeded,
            final(self).counters() == old(self).counters(),
    {
        let count: u32 = self.request_count(session_id) + 1;
        self.request_counts.insert(session_id, count);
        let limit = self.config.mode.max_requests_per_minute();
        if count > limit {
            let nv = self.get_violation_count(session_id);
            if nv == 0 && count <= BURST_MAX_COUNT {
                let used = match self.burst_exceptions.get(session_id) {
                    Some(b) => *b,
                    None => false,
                };
                self.burst_exceptions.insert(session_id, true);
                if !used {
                    return Ok(());
                }
            }
            return Err(NodeError::RateLimitExceeded);
        }
        Ok(())
    }

    /// Refuses a path that holds a known attack pattern.
    pub fn validate_path(&self, path: &str) -> (r: Result<(), NodeError>)
        ensures
            match suspicious_pattern(path@) {
                None => r is Ok,
                Some(p) => r matches Err(NodeError::ViolationDetected(m)) && m@ == "Suspicious pattern: "@ + p,
            },
    {
        let p: &str = if contains_str(path, "../") {
            "../"
        } else if contains_str(path, "..\\") {
            "..\\"
        } else if contains_str(path, "<script") {
            "<script"
        } else if contains_str(path, "' OR ") {
            "' OR "
        } else if contains_str(path, "DROP TABLE") {
            "DROP TABLE"
        } else {
            return Ok(());
        };
        let mut m = owned("Suspicious pattern: ");
        m.append(p);
        Err(NodeError::ViolationDetected(m))
    }

    /// Records a violation at time `now` and gives the session's new count.
    pub fn record_violation_at(&mut self, session_id: &str, violation_type: ViolationType, description: &str, now: u64) -> (n: usize)
        requires
            old(self).wf(),
            old(self).counters().violations_detected < u64::MAX,
        ensures
            final(self).counters() == old(self).counters().plus_violations(1),
            final(self).wf(),
            final(self).cfg() == old(self).cfg(),
            final(self)@ == with_violation(old(self)@, violation_of(violation_type, session_id@, now, description@)),
            n == violation_count_of(final(self)@, session_id@),
    {
        let ghost vs = self.violations@;
        let w = Violation::new_at(violation_type, owned(session_id), owned(description), now);
        self.violations.push(w);
        self.metrics.record_violation();
        proof {
            assert(violation_views(self.violations@) =~= violation_views(vs).push(violation_of(violation_type, session_id@, now, description@)));
        }
        self.get_violation_count(session_id)
    }

    /// Records a violation stamped with the system clock.
    pub fn record_violation(&mut self, session_id: &str, violation_type: ViolationType, description: &str) -> (n: usize)
        requires
            old(self).wf(),
            old(self).counters().violations_detected < u64::MAX,
        ensures
            final(self).counters() == old(self).counters().plus_violations(1),
            final(self).wf(),
            final(self).cfg() == old(self).cfg(),
            exists|t: u64| final(self)@ == with_violation(old(self)@, violation_of(violation_type, session_id@, t, description@)),
            n == violation_count_of(final(self)@, session_id@),
    {
        let now = unix_time_secs();
        self.record_violation_at(session_id, violation_type, description, now)
    }

    /// Whether a session has reached the violation threshold and is to be demoted.
    pub fn check_demotion(&self, session_id: &str) -> (r: bool)
        ensures
            r == (violation_count_of(self@, session_id@) >= self.cfg().violation_threshold),
    {
        self.get_violation_count(session_id) >= self.config.violation_threshold as usize
    }

    /// Whether a session has earned promotion: enough requests this minute
    /// and no violations.
    pub fn check_promotion(&self, session_id: &str) -> (r: bool)
        requires
            self.wf(),
        ensures
            r == (count_in(self@.counts, session_id@) >= self.cfg().promotion_threshold
                && violation_count_of(self@, session_id@) == 0),
    {
        let count = self.request_count(session_id);
        let nv = self.get_violation_count(session_id);
        count >= self.config.promotion_threshold && nv == 0
    }
}


/// What a node does with a request of a known session: a session already at
/// the violation threshold goes back to the CAPTCHA gateway; otherwise the checks run,
/// and a failed check sends it back to the CAPTCHA gateway if that violation brought it
/// to the threshold, and refuses it otherwise.
pub open spec fn action_matches(
    a: NodeAction,
    before: NodeView,
    after: NodeView,
    cfg: NodeConfig,
    sid: Seq<char>,
    path: Seq<char>,
    content_length: Option<Seq<char>>,
    now: u64,
) -> bool {
    if violation_count_of(before, sid) >= cfg.violation_threshold {
        a is RedirectToGate && after == before
    } else {
        let (v, c) = check_step(before, cfg, sid, path, content_length, now);
        &&& after == v
        &&& match c {
            CheckResult::Passed => a is Forward,
            _ => if violation_count_of(v, sid) >= cfg.violation_threshold {
                a is RedirectToGate
            } else {
                a matches NodeAction::Reject(e) && reports(e, c)
            },
        }
    }
}

/// A violation is kept by the periodic cleanup while it is recent.
pub open spec fn recent_violations(vs: Seq<ViolationView>, now: u64) -> Seq<ViolationView> {
    vs.filter(|w: ViolationView| is_recent(w, now))
}

impl Node {
    /// Runs the checks on a request in order, recording a violation for the
    /// first that fails.
    pub fn check_violations(&mut self, session_id: &str, path: &str, content_length: Option<&str>, now: u64) -> (r: Result<(), NodeError>)
        requires
            old(self).wf(),
            count_in(old(self)@.counts, session_id@) < u32::MAX,
            old(self).counters().violations_detected < u64::MAX,
        ensures
            final(self).counters() == old(self).counters().plus_violations(if r is Ok { 0 } else { 1 }),
            final(self).wf(),
            final(self).cfg() == old(self).cfg(),
            final(self)@ == check_step(old(self)@, old(self).cfg(), session_id@, path@, view_opt_str(content_length), now).0,
            match r {
                Ok(_) => check_step(old(self)@, old(self).cfg(), session_id@, path@, view_opt_str(content_length), now).1 is Passed,
                Err(e) => reports(e, check_step(old(self)@, old(self).cfg(), session_id@, path@, view_opt_str(content_length), now).1),
            },
    {
        proof {
            reveal_strlit("Request too large");
        }
        match self.check_rate_limit(session_id) {
            Err(e) => {
                self.record_violation_at(session_id, ViolationType::RateLimitExceeded, "Rate limit exceeded", now);
                return Err(e);
            },
            Ok(()) => {},
        }
        match content_length {
            Some(cl) => match parse_usize(cl) {
                Some(size) => {
                    if size > self.config.max_request_size {
                        self.record_violation_at(session_id, ViolationType::OversizedRequest, "Request too large", now);
                        return Err(NodeError::ViolationDetected(owned("Request too large")));
                    }
                },
                None => {},
            },
            None => {},
        }
        if self.config.mode.should_inspect_deeply() {
            match self.validate_path(path) {
                Err(e) => {
                    self.record_violation_at(session_id, ViolationType::InvalidPath, "Invalid path", now);
                    return Err(e);
                },
                Ok(()) => {},
            }
        }
        Ok(())
    }

    /// Decides what becomes of a request of a known session at time `now`.
    pub fn process_request(&mut self, session_id: &str, path: &str, content_length: Option<&str>, now: u64) -> (a: NodeAction)
        requires
            old(self).wf(),
            count_in(old(self)@.counts, session_id@) < u32::MAX,
            old(self).counters().violations_detected < u64::MAX,
        ensures
            final(self).counters() == old(self).counters().plus_violations(
                final(self)@.violations.len() - old(self)@.violations.len()),
            final(self).wf(),
            final(self).cfg() == old(self).cfg(),
            action_matches(a, old(self)@, final(self)@, old(self).cfg(), session_id@, path@, view_opt_str(content_length), now),
    {
        if self.check_demotion(session_id) {
            return NodeAction::RedirectToGate;
        }
        match self.check_violations(session_id, path, content_length, now) {
            Ok(()) => NodeAction::Forward,
            Err(e) => {
                if self.check_demotion(session_id) {
                    NodeAction::RedirectToGate
                } else {
                    NodeAction::Reject(e)
                }
            },
        }
    }

    /// The minute tick: request counts start over and violations older than
    /// five minutes are forgotten.
    pub fn cleanup_tick(&mut self, now: u64)
        requires
            old(self).wf(),
        ensures
            final(self).wf(),
            final(self).cfg() == old(self).cfg(),
            final(self)@.counts == Map::<Seq<char>, u32>::empty(),
            final(self)@.bursts == old(self)@.bursts,
            final(self)@.violations == recent_violations(old(self)@.violations, now),
            final(self).counters() == old(self).counters(),
    {
        self.request_counts = StrMap::new();
        let ghost vs = self.violations@;
        let mut kept: Vec<Violation> = Vec::new();
        let mut i: usize = 0;
        proof {
            reveal_with_fuel(Seq::filter, 1);
            assert(violation_views(vs.take(0)) =~= Seq::<ViolationView>::empty());
            assert(violation_views(kept@) =~= Seq::<ViolationView>::empty());
        }
        while i < self.violations.len()
            invariant
                vs == self.violations@,
                i <= vs.len(),
                violation_views(kept@) == recent_violations(violation_views(vs.take(i as int)), now),
            decreases vs.len() - i,
        {
            proof {
                reveal_with_fuel(Seq::filter, 1);
                assert(violation_views(vs.take(i + 1)).drop_last() =~= violation_views(vs.take(i as int)));
                assert(violation_views(vs.take(i + 1)).last() == vs[i as int]@);
            }
            let ts = self.violations[i].timestamp;
            if ts <= now && now - ts < VIOLATION_TTL_SECS {
                let ghost k0 = kept@;
                let w = copy_violation(&self.violations[i]);
                kept.push(w);
                proof {
                    assert(violation_views(kept@) =~= violation_views(k0).push(vs[i as int]@));
                }
            }
            i = i + 1;
        }
        proof {
            assert(vs.take(vs.len() as int) =~= vs);
        }
        self.violations = kept;
    }

    /// Makes a redirect to the backend's own address relative; any other
    /// location is kept as it is.
    pub fn rewrite_location(&self, location: &str) -> (r: String)
        ensures
            r@ == (if has_prefix(location@, self.cfg().backend_address@) {
                location@.skip(self.cfg().backend_address@.len() as int)
            } else {
                location@
            }),
    {
        match strip_prefix(location, self.config.backend_address.as_str()) {
            Some(rest) => rest,
            None => owned(location),
        }
    }
}


/// The pieces joined with a separator between each two.
pub open spec fn join_with(parts: Seq<Seq<char>>, sep: Seq<char>) -> Seq<char>
    decreases parts.len(),
{
    if parts.len() == 0 {
        Seq::empty()
    } else if parts.len() == 1 {
        parts[0]
    } else {
        join_with(parts.drop_last(), sep) + sep + parts.last()
    }
}

/// Whether a cookie attribute restricts the cookie's domain.
pub open spec fn is_domain_attr(part: Seq<char>) -> bool {
    has_prefix(lowercase(trimmed(part)), "domain="@)
}

/// A Set-Cookie value without its Domain attributes.
pub open spec fn cookie_without_domain(cookie: Seq<char>) -> Seq<char> {
    join_with(split_on(cookie, ';').filter(|p: Seq<char>| !is_domain_attr(p)), "; "@)
}

impl Node {
    /// Drops the Domain attributes of a Set-Cookie value, so that the cookie
    /// holds for whatever address the client used.
    pub fn rewrite_cookie(&self, cookie: &str) -> (r: String)
        ensures
            r@ == cookie_without_domain(cookie@),
    {
        let parts = split_char(cookie, ';');
        let ghost ps = views(parts@);
        let mut out = String::new();
        let mut any = false;
        let mut i: usize = 0;
        proof {
            reveal_with_fuel(Seq::filter, 1);
            assert(ps.take(0) =~= Seq::<Seq<char>>::empty());
        }
        while i < parts.len()
            invariant
                ps == views(parts@),
                ps == split_on(cookie@, ';'),
                i <= ps.len(),
                any == (ps.take(i as int).filter(|p: Seq<char>| !is_domain_attr(p)).len() > 0),
                out@ == join_with(ps.take(i as int).filter(|p: Seq<char>| !is_domain_attr(p)), "; "@),
            decreases ps.len() - i,
        {
            let ghost before = ps.take(i as int).filter(|p: Seq<char>| !is_domain_attr(p));
            proof {
                reveal_with_fuel(Seq::filter, 1);
                assert(ps.take(i + 1).drop_last() =~= ps.take(i as int));
                assert(ps[i as int] == parts@[i as int]@);
            }
            let t = trim(parts[i].as_str());
            let l = to_lowercase(t.as_str());
            if !starts_with(l.as_str(), "domain=") {
                proof {
                    assert(before.push(ps[i as int]).drop_last() =~= before);
                }
                if any {
                    out.append("; ");
                }
                out.append(parts[i].as_str());
                proof {
                    reveal_strlit("; ");
                    if before.len() == 0 {
                        assert(out@ =~= ps[i as int]);
                    } else {
                        assert(out@ =~= join_with(before, "; "@) + "; "@ + ps[i as int]);
                    }
                }
                any = true;
            }
            i = i + 1;
        }
        proof {
            assert(ps.take(ps.len() as int) =~= ps);
        }
        out
    }
}


/// A session with a recorded violation is refused once its count this minute
/// has reached the limit: the burst allowance is only for clean sessions.
pub proof fn law_no_grace_after_violation(v: NodeView, sid: Seq<char>, limit: nat)
    requires
        violation_count_of(v, sid) > 0,
        count_in(v.counts, sid) >= limit,
    ensures
        !rate_step(v, sid, limit).1,
{
}

/// Past the limit a session is admitted at most once more before the counts
/// start over: of two consecutive checks over the limit, at least one is
/// refused.
pub proof fn law_burst_granted_once(v: NodeView, sid: Seq<char>, limit: nat)
    requires
        count_in(v.counts, sid) >= limit,
        count_in(v.counts, sid) + 2 <= u32::MAX,
    ensures
        !(rate_step(v, sid, limit).1 && rate_step(rate_step(v, sid, limit).0, sid, limit).1),
{
    let (v1, ok1) = rate_step(v, sid, limit);
    assert(v1.violations == v.violations);
    assert(count_in(v1.counts, sid) == count_in(v.counts, sid) + 1);
    if ok1 {
        assert(burst_used_in(v1.bursts, sid));
    }
}

/// A session that has reached the violation threshold is sent back to the
/// CAPTCHA gateway on every request, and the node's state does not change.
pub proof fn law_threshold_session_redirected(
    a: NodeAction,
    before: NodeView,
    after: NodeView,
    cfg: NodeConfig,
    sid: Seq<char>,
    path: Seq<char>,
    content_length: Option<Seq<char>>,
    now: u64,
)
    requires
        violation_count_of(before, sid) >= cfg.violation_threshold,
        action_matches(a, before, after, cfg, sid, path, content_length, now),
    ensures
        a is RedirectToGate,
        after == before,
{
}

/// A request that is forwarded has passed every check and recorded no
/// violation.
pub proof fn law_forwarded_request_is_clean(
    a: NodeAction,
    before: NodeView,
    after: NodeView,
    cfg: NodeConfig,
    sid: Seq<char>,
    path: Seq<char>,
    content_length: Option<Seq<char>>,
    now: u64,
)
    requires
        action_matches(a, before, after, cfg, sid, path, content_length, now),
        a is Forward,
    ensures
        after.violations == before.violations,
        !oversized(content_length, cfg.max_request_size),
        cfg.mode == NodeMode::Threat ==> suspicious_pattern(path) is None,
        rate_step(before, sid, mode_limit(cfg.mode)).1,
{
}

/// How the node reaches its backend: through a SOCKS proxy (with remote name
/// resolution) and longer timeouts for an onion backend, directly otherwise.
#[derive(Debug)]
pub struct ClientPlan {
    pub socks_url: Option<String>,
    pub timeout_secs: u64,
    pub connect_timeout_secs: u64,
}

/// What becomes of a header of the backend's answer.
#[derive(Debug)]
pub enum HeaderAction {
    /// Passed on unchanged.
    Keep,
    /// Passed on with this value.
    Replace(String),
    /// Dropped: a Location or Set-Cookie value that is not text.
    Skip,
}

/// The address a request for `path_and_query` goes to: the backend's
/// address followed by the path, "/" when there is none.
pub open spec fn forward_url(backend: Seq<char>, path_and_query: Option<Seq<char>>) -> Seq<char> {
    backend + match path_and_query { Some(p) => p, None => "/"@ }
}

impl Node {
    /// The address a request is forwarded to.
    pub fn backend_url(&self, path_and_query: Option<&str>) -> (r: String)
        ensures
            r@ == forward_url(self.cfg().backend_address@, view_opt_str(path_and_query)),
    {
        match path_and_query {
            Some(p) => crate::text::concat_str(self.config.backend_address.as_str(), p),
            None => crate::text::concat_str(self.config.backend_address.as_str(), "/"),
        }
    }

    /// How the backend is reached; an onion backend without a SOCKS proxy
    /// cannot be.
    pub fn client_plan(&self) -> (r: Result<ClientPlan, String>)
        ensures
            has_infix(self.cfg().backend_address@, ".onion"@) ==> match self.cfg().socks_proxy {
                Some(p) => r matches Ok(c) && c.socks_url matches Some(u) && u@ == "socks5h://"@ + p@
                    && c.timeout_secs == 60 && c.connect_timeout_secs == 30,
                None => r matches Err(e) && e@ == "Backend is .onion but no SOCKS proxy configured"@,
            },
            !has_infix(self.cfg().backend_address@, ".onion"@) ==> (r matches Ok(c) && c.socks_url is None
                && c.timeout_secs == 30 && c.connect_timeout_secs == 10),
    {
        if contains_str(self.config.backend_address.as_str(), ".onion") {
            match &self.config.socks_proxy {
                Some(p) => Ok(ClientPlan {
                    socks_url: Some(crate::text::concat_str("socks5h://", p.as_str())),
                    timeout_secs: 60,
                    connect_timeout_secs: 30,
                }),
                None => Err(owned("Backend is .onion but no SOCKS proxy configured")),
            }
        } else {
            Ok(ClientPlan { socks_url: None, timeout_secs: 30, connect_timeout_secs: 10 })
        }
    }

    /// What becomes of a header of the backend's answer, given its name and
    /// its value when that is text: Location values are made relative and
    /// Set-Cookie values lose their Domain attributes.
    pub fn response_header(&self, name: &str, value: Option<&str>) -> (r: HeaderAction)
        ensures
            lowercase(name@) == "location"@ ==> match value {
                Some(v) => r matches HeaderAction::Replace(x) && x@ == (if has_prefix(v@, self.cfg().backend_address@) {
                    v@.skip(self.cfg().backend_address@.len() as int)
                } else {
                    v@
                }),
                None => r is Skip,
            },
            lowercase(name@) == "set-cookie"@ ==> match value {
                Some(v) => r matches HeaderAction::Replace(x) && x@ == cookie_without_domain(v@),
                None => r is Skip,
            },
            lowercase(name@) != "location"@ && lowercase(name@) != "set-cookie"@ ==> r is Keep,
    {
        let lower = to_lowercase(name);
        proof {
            reveal_strlit("location");
            reveal_strlit("set-cookie");
            assert("location"@ != "set-cookie"@) by { assert("location"@[0] != "set-cookie"@[0]); }
        }
        if str_eq(lower.as_str(), "location") {
            match value {
                Some(v) => HeaderAction::Replace(self.rewrite_location(v)),
                None => HeaderAction::Skip,
            }
        } else if str_eq(lower.as_str(), "set-cookie") {
            match value {
                Some(v) => HeaderAction::Replace(self.rewrite_cookie(v)),
                None => HeaderAction::Skip,
            }
        } else {
            HeaderAction::Keep
        }
    }
}

} // verus!
