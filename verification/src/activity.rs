//! Per-session activity: idle time between requests, detection of cloned
//! sessions (requests too close together) and the one-line activity log.

use vstd::prelude::*;
use crate::strmap::StrMap;
use crate::text::{owned, decimal, u64_to_decimal, chars_of, string_of};
use crate::gateway::{ascii, head};
use crate::clock::unix_time_millis;

verus! {

/// `a - b`, or 0 when `b` is larger.
pub open spec fn sat_sub(a: u64, b: u64) -> u64 {
    if a >= b { (a - b) as u64 } else { 0 }
}

/// Last activity time (seconds) of each session.
pub struct SessionActivityTracker {
    pub last_activity: StrMap<u64>,
}

impl SessionActivityTracker {
    /// A tracker that has seen no session.
    pub fn new() -> (t: Self)
        ensures
            t.last_activity.wf(),
            t.last_activity.map() == Map::<Seq<char>, u64>::empty(),
    {
        SessionActivityTracker { last_activity: StrMap::new() }
    }

    /// Seconds since the session was last seen (0 for a new session); the
    /// session is then marked as seen at `now`.
    pub fn seconds_since_last(&mut self, session_id: &str, now: u64) -> (idle: u64)
        requires
            old(self).last_activity.wf(),
        ensures
            final(self).last_activity.wf(),
            idle == if old(self).last_activity.map().contains_key(session_id@) {
                sat_sub(now, old(self).last_activity.map()[session_id@])
            } else {
                0
            },
            final(self).last_activity.map() == old(self).last_activity.map().insert(session_id@, now),
    {
        let last = match self.last_activity.get(session_id) {
            Some(t) => *t,
            None => now,
        };
        self.last_activity.insert(session_id, now);
        if now >= last { now - last } else { 0 }
    }
}

/// Last request time (milliseconds) of each session, for clone detection.
pub struct SessionTimestamps {
    pub last_request: StrMap<u64>,
}

impl SessionTimestamps {
    /// No session seen yet.
    pub fn new() -> (t: Self)
        ensures
            t.last_request.wf(),
            t.last_request.map() == Map::<Seq<char>, u64>::empty(),
    {
        SessionTimestamps { last_request: StrMap::new() }
    }

    /// Whether a request at `now_millis` comes less than 100 ms after the
    /// session's previous one (a cloned session); the time is recorded either way.
    pub fn detect_session_cloning_at(&mut self, session_id: &str, now_millis: u64) -> (cloned: bool)
        requires
            old(self).last_request.wf(),
        ensures
            final(self).last_request.wf(),
            cloned == (old(self).last_request.map().contains_key(session_id@)
                && sat_sub(now_millis, old(self).last_request.map()[session_id@]) < 100),
            final(self).last_request.map() == old(self).last_request.map().insert(session_id@, now_millis),
    {
        let cloned = match self.last_request.get(session_id) {
            Some(last) => {
                let diff = if now_millis >= *last { now_millis - *last } else { 0 };
                diff < 100
            },
            None => false,
        };
        self.last_request.insert(session_id, now_millis);
        cloned
    }

    /// `detect_session_cloning_at` at the current time.
    pub fn detect_session_cloning(&mut self, session_id: &str) -> (cloned: bool)
        requires
            old(self).last_request.wf(),
        ensures
            final(self).last_request.wf(),
            ({
                let now = final(self).last_request.map()[session_id@];
                &&& cloned == (old(self).last_request.map().contains_key(session_id@)
                    && sat_sub(now, old(self).last_request.map()[session_id@]) < 100)
                &&& final(self).last_request.map() == old(self).last_request.map().insert(session_id@, now)
            }),
    {
        let now = unix_time_millis();
        self.detect_session_cloning_at(session_id, now)
    }
}

/// How long a session was idle, as shown in the activity log.
pub open spec fn idle_label(secs: u64) -> Seq<char> {
    if secs == 0 {
        "new"@
    } else if secs < 60 {
        decimal(secs as nat) + "s"@
    } else if secs < 3600 {
        decimal((secs / 60) as nat) + "m"@
    } else {
        decimal((secs / 3600) as nat) + "h"@
    }
}

/// One activity-log line: `[SID] +IDLE PATH`, followed by ` → EVENT` when
/// there is an event; SID is the first six characters of the session id.
pub open spec fn activity_line(sid: Seq<char>, secs: u64, path: Seq<char>, event: Option<Seq<char>>) -> Seq<char> {
    let base = "["@ + head(sid, 6) + "] +"@ + idle_label(secs) + " "@ + path;
    match event {
        Some(ev) => base + " → "@ + ev,
        None => base,
    }
}

fn idle_string(secs: u64) -> (r: String)
    ensures
        r@ == idle_label(secs),
{
    proof {
        reveal_strlit("new");
        reveal_strlit("s");
        reveal_strlit("m");
        reveal_strlit("h");
    }
    if secs == 0 {
        owned("new")
    } else if secs < 60 {
        let mut r = u64_to_decimal(secs);
        r.append("s");
        r
    } else if secs < 3600 {
        let mut r = u64_to_decimal(secs / 60);
        r.append("m");
        r
    } else {
        let mut r = u64_to_decimal(secs / 3600);
        r.append("h");
        r
    }
}

/// The activity-log line for a request (session ids are ASCII).
pub fn log_session_activity(sid: &str, seconds_idle: u64, path: &str, event: Option<&str>) -> (line: String)
    requires
        ascii(sid@),
    ensures
        line@ == activity_line(sid@, seconds_idle, path@, match event { Some(e) => Some(e@), None => None }),
{
    proof {
        reveal_strlit("[");
        reveal_strlit("] +");
        reveal_strlit(" ");
        reveal_strlit(" → ");
    }
    let v = chars_of(sid);
    let n = if v.len() < 6 { v.len() } else { 6 };
    let short = string_of(v.as_slice(), 0, n);
    proof {
        if v@.len() <= 6 {
            assert(v@.subrange(0, v@.len() as int) =~= v@);
        }
    }
    let mut line = owned("[");
    line.append(short.as_str());
    line.append("] +");
    let idle = idle_string(seconds_idle);
    line.append(idle.as_str());
    line.append(" ");
    line.append(path);
    match event {
        Some(ev) => {
            line.append(" → ");
            line.append(ev);
        },
        None => {},
    }
    line
}

} // verus!
