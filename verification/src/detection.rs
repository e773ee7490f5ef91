//! Behavioural anomaly detection on a node and structural request checks.

use vstd::prelude::*;
use crate::clock::unix_time_secs;
use crate::node::ViolationType;
use crate::strmap::StrMap;
use crate::text::{chars_of, owned, str_eq};

verus! {

/// One observed request of a session.
#[derive(Debug)]
pub struct RequestPattern {
    /// Seconds since the Unix epoch.
    pub timestamp: u64,
    pub path: String,
    pub method: String,
    pub user_agent: Option<String>,
}

/// A request pattern as plain values.
pub struct PatternView {
    pub timestamp: u64,
    pub path: Seq<char>,
    pub method: Seq<char>,
    pub user_agent: Option<Seq<char>>,
}

impl View for RequestPattern {
    type V = PatternView;

    open spec fn view(&self) -> PatternView {
        PatternView {
            timestamp: self.timestamp,
            path: self.path@,
            method: self.method@,
            user_agent: match self.user_agent {
                Some(u) => Some(u@),
                None => None,
            },
        }
    }
}

/// The views of a list of patterns.
pub open spec fn pattern_views(ps: Seq<RequestPattern>) -> Seq<PatternView> {
    ps.map_values(|p: RequestPattern| p@)
}

/// Three requests within the same second: the last and the third from last
/// carry the same timestamp.
pub open spec fn rapid(ps: Seq<PatternView>) -> bool {
    ps.len() >= 3 && ps[ps.len() - 1].timestamp == ps[ps.len() - 3].timestamp
}

/// The number of distinct values in a sequence.
pub open spec fn distinct_count(s: Seq<Seq<char>>) -> nat
    decreases s.len(),
{
    if s.len() == 0 {
        0
    } else {
        distinct_count(s.drop_last()) + if s.drop_last().contains(s.last()) { 0nat } else { 1nat }
    }
}

/// The paths of a list of patterns.
pub open spec fn paths_of(ps: Seq<PatternView>) -> Seq<Seq<char>> {
    ps.map_values(|p: PatternView| p.path)
}

/// At least five requests, more than four fifths of them to distinct paths.
pub open spec fn scanning(ps: Seq<PatternView>) -> bool {
    ps.len() >= 5 && 5 * distinct_count(paths_of(ps)) > 4 * ps.len()
}

/// The history after one more request, trimmed to the window.
pub open spec fn windowed(ps: Seq<PatternView>, p: PatternView, window: nat) -> Seq<PatternView> {
    if ps.len() + 1 > window { ps.push(p).drop_first() } else { ps.push(p) }
}

/// The violations a history shows: one for rapid requests, one for scanning.
pub open spec fn findings(ps: Seq<PatternView>) -> Seq<ViolationType> {
    (if rapid(ps) { seq![ViolationType::SuspiciousPattern] } else { Seq::empty() })
        + (if scanning(ps) { seq![ViolationType::SuspiciousPattern] } else { Seq::empty() })
}

/// Keeps a bounded history of requests per session and spots bursts and scans.
pub struct BehaviorDetector {
    request_patterns: StrMap<Vec<RequestPattern>>,
    pattern_window_size: usize,
}

impl BehaviorDetector {
    /// The histories per session.
    pub closed spec fn histories(&self) -> Map<Seq<char>, Seq<PatternView>> {
        self.request_patterns.map().map_values(|v: Vec<RequestPattern>| pattern_views(v@))
    }

    /// How many requests a history keeps.
    pub closed spec fn window(&self) -> nat {
        self.pattern_window_size as nat
    }

    /// The map behind the histories is well formed.
    pub closed spec fn wf(&self) -> bool {
        self.request_patterns.wf()
    }

    /// A detector keeping the last `pattern_window_size` requests per session.
    pub fn new(pattern_window_size: usize) -> (d: Self)
        ensures
            d.wf(),
            d.window() == pattern_window_size,
            d.histories() == Map::<Seq<char>, Seq<PatternView>>::empty(),
    {
        let d = BehaviorDetector { request_patterns: StrMap::new(), pattern_window_size };
        proof {
            assert(d.histories() =~= Map::<Seq<char>, Seq<PatternView>>::empty());
        }
        d
    }

    /// Whether the last three requests came within one second.
    pub fn has_rapid_requests(patterns: &[RequestPattern]) -> (r: bool)
        ensures
            r == rapid(pattern_views(patterns@)),
    {
        let n = patterns.len();
        if n < 3 {
            return false;
        }
        patterns[n - 1].timestamp == patterns[n - 3].timestamp
    }

    /// Whether the history looks like a scan: many distinct paths.
    pub fn has_scan_pattern(patterns: &[RequestPattern]) -> (r: bool)
        ensures
            r == scanning(pattern_views(patterns@)),
    {
        let n = patterns.len();
        if n < 5 {
            return false;
        }
        let ghost ps = paths_of(pattern_views(patterns@));
        let mut unique: usize = 0;
        let mut i: usize = 0;
        proof {
            assert(ps.take(0) =~= Seq::<Seq<char>>::empty());
        }
        while i < n
            invariant
                n == patterns@.len(),
                ps == paths_of(pattern_views(patterns@)),
                i <= n,
                unique <= i,
                unique == distinct_count(ps.take(i as int)),
            decreases n - i,
        {
            let mut seen = false;
            let mut j: usize = 0;
            while j < i
                invariant
                    n == patterns@.len(),
                    ps == paths_of(pattern_views(patterns@)),
                    i < n,
                    j <= i,
                    seen == ps.take(j as int).contains(ps[i as int]),
                decreases i - j,
            {
                let same = str_eq(patterns[j].path.as_str(), patterns[i].path.as_str());
                proof {
                    assert(ps.take(j + 1) =~= ps.take(j as int).push(ps[j as int]));
                    assert(ps[j as int] == patterns@[j as int].path@);
                    assert(ps[i as int] == patterns@[i as int].path@);
                    if same {
                        assert(ps.take(j + 1)[j as int] == ps[i as int]);
                    }
                    if ps.take(j as int).contains(ps[i as int]) {
                        let k = choose|k: int| 0 <= k < ps.take(j as int).len() && #[trigger] ps.take(j as int)[k] == ps[i as int];
                        assert(ps.take(j + 1)[k] == ps[i as int]);
                    }
                    if ps.take(j + 1).contains(ps[i as int]) {
                        let k = choose|k: int| 0 <= k < ps.take(j + 1).len() && #[trigger] ps.take(j + 1)[k] == ps[i as int];
                        if k < j {
                            assert(ps.take(j as int)[k] == ps[i as int]);
                        }
                    }
                }
                seen = seen || same;
                j = j + 1;
            }
            proof {
                assert(ps.take(i + 1).drop_last() =~= ps.take(i as int));
                assert(ps.take(i + 1).last() == ps[i as int]);
            }
            if !seen {
                unique = unique + 1;
            }
            i = i + 1;
        }
        proof {
            assert(ps.take(n as int) =~= ps);
        }
        5 * (unique as u128) > 4 * (n as u128)
    }
}


/// A session's history, empty when it has none.
pub open spec fn history_in(m: Map<Seq<char>, Seq<PatternView>>, sid: Seq<char>) -> Seq<PatternView> {
    if m.contains_key(sid) { m[sid] } else { Seq::empty() }
}

/// An optional string as plain values.
pub open spec fn opt_view(o: Option<&str>) -> Option<Seq<char>> {
    match o {
        Some(s) => Some(s@),
        None => None,
    }
}

impl BehaviorDetector {
    /// Records a request made at time `now` and reports what the session's
    /// recent history shows.
    pub fn analyze_at(&mut self, session_id: &str, path: &str, method: &str, user_agent: Option<&str>, now: u64) -> (r: Vec<ViolationType>)
        requires
            old(self).wf(),
        ensures
            final(self).wf(),
            final(self).window() == old(self).window(),
            final(self).histories() == old(self).histories().insert(
                session_id@,
                windowed(
                    history_in(old(self).histories(), session_id@),
                    PatternView { timestamp: now, path: path@, method: method@, user_agent: opt_view(user_agent) },
                    old(self).window(),
                ),
            ),
            r@ == findings(final(self).histories()[session_id@]),
    {
        let ghost h0 = history_in(self.histories(), session_id@);
        let ghost m0 = self.request_patterns.map();
        let ua: Option<String> = match user_agent {
            Some(u) => Some(owned(u)),
            None => None,
        };
        let p = RequestPattern { timestamp: now, path: owned(path), method: owned(method), user_agent: ua };
        let ghost pv = p@;
        let mut list: Vec<RequestPattern> = match self.request_patterns.remove(session_id) {
            Some(l) => l,
            None => Vec::new(),
        };
        proof {
            assert(pattern_views(list@) =~= h0);
        }
        list.push(p);
        proof {
            assert(pattern_views(list@) =~= h0.push(pv));
        }
        if list.len() > self.pattern_window_size {
            list.remove(0);
            proof {
                assert(pattern_views(list@) =~= h0.push(pv).drop_first());
            }
        }
        let mut out: Vec<ViolationType> = Vec::new();
        if Self::has_rapid_requests(list.as_slice()) {
            out.push(ViolationType::SuspiciousPattern);
        }
        if Self::has_scan_pattern(list.as_slice()) {
            out.push(ViolationType::SuspiciousPattern);
        }
        let ghost hist = pattern_views(list@);
        self.request_patterns.insert(session_id, list);
        proof {
            assert(self.request_patterns.map() =~= m0.insert(session_id@, self.request_patterns.map()[session_id@]));
            assert(self.histories() =~= old(self).histories().insert(session_id@, hist));
            assert(out@ =~= findings(hist));
        }
        out
    }

    /// Records a request stamped with the system clock.
    pub fn analyze(&mut self, session_id: &str, path: &str, method: &str, user_agent: Option<&str>) -> (r: Vec<ViolationType>)
        requires
            old(self).wf(),
        ensures
            final(self).wf(),
            final(self).window() == old(self).window(),
            exists|t: u64| final(self).histories() == old(self).histories().insert(
                session_id@,
                windowed(
                    history_in(old(self).histories(), session_id@),
                    PatternView { timestamp: t, path: path@, method: method@, user_agent: opt_view(user_agent) },
                    old(self).window(),
                ),
            ),
            r@ == findings(final(self).histories()[session_id@]),
    {
        let now = unix_time_secs();
        self.analyze_at(session_id, path, method, user_agent, now)
    }

    /// The recorded history of a session.
    pub fn history(&self, session_id: &str) -> (r: Option<&Vec<RequestPattern>>)
        requires
            self.wf(),
        ensures
            match r {
                Some(v) => self.histories().contains_key(session_id@) && pattern_views(v@) == self.histories()[session_id@],
                None => !self.histories().contains_key(session_id@),
            },
    {
        self.request_patterns.get(session_id)
    }

    /// Forgets a session's history.
    pub fn reset(&mut self, session_id: &str)
        requires
            old(self).wf(),
        ensures
            final(self).wf(),
            final(self).window() == old(self).window(),
            final(self).histories() == old(self).histories().remove(session_id@),
    {
        self.request_patterns.remove(session_id);
        proof {
            assert(self.histories() =~= old(self).histories().remove(session_id@));
        }
    }
}

/// Whether any header's name and value together exceed `max` bytes.
pub open spec fn header_too_large(headers: Seq<(Vec<u8>, Vec<u8>)>, max: usize) -> bool {
    exists|i: int| 0 <= i < headers.len() && #[trigger] headers[i].0@.len() + headers[i].1@.len() > max
}

/// Checks of a request's shape: path length, header sizes, no NUL in the path.
pub struct RequestValidator {
    pub max_header_size: usize,
    pub max_path_length: usize,
}

impl RequestValidator {
    /// A validator with the given limits, in bytes.
    pub fn new(max_header_size: usize, max_path_length: usize) -> (v: Self)
        ensures
            v.max_header_size == max_header_size,
            v.max_path_length == max_path_length,
    {
        RequestValidator { max_header_size, max_path_length }
    }

    /// Refuses a request whose path is longer than the limit (in bytes), one
    /// of whose headers (name and value bytes) is larger than the limit, or
    /// whose path holds a NUL character.
    pub fn validate(&self, path: &str, headers: &Vec<(Vec<u8>, Vec<u8>)>) -> (r: Result<(), ViolationType>)
        ensures
            r == (if path.len() > self.max_path_length
                || header_too_large(headers@, self.max_header_size)
                || path@.contains('\0') {
                Err(ViolationType::MalformedRequest)
            } else {
                Ok(())
            }),
    {
        if path.len() > self.max_path_length {
            return Err(ViolationType::MalformedRequest);
        }
        let mut i: usize = 0;
        while i < headers.len()
            invariant
                i <= headers@.len(),
                forall|k: int| 0 <= k < i ==> #[trigger] headers@[k].0@.len() + headers@[k].1@.len() <= self.max_header_size,
            decreases headers@.len() - i,
        {
            let name_len = headers[i].0.len();
            let value_len = headers[i].1.len();
            if name_len > self.max_header_size || value_len > self.max_header_size - name_len {
                proof {
                    assert(headers@[i as int].0@.len() + headers@[i as int].1@.len() > self.max_header_size);
                }
                return Err(ViolationType::MalformedRequest);
            }
            i = i + 1;
        }
        let v = chars_of(path);
        let mut j: usize = 0;
        while j < v.len()
            invariant
                v@ == path@,
                j <= v@.len(),
                forall|k: int| 0 <= k < j ==> v@[k] != '\0',
            decreases v@.len() - j,
        {
            if v[j] == '\0' {
                proof {
                    assert(path@[j as int] == '\0');
                }
                return Err(ViolationType::MalformedRequest);
            }
            j = j + 1;
        }
        Ok(())
    }
}

} // verus!
