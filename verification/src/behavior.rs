//! Totals of the behavioural analysis over all sessions, for the admin panel.

use vstd::prelude::*;
use crate::strmap::StrMap;

verus! {

/// What the totals read of one session's behavioural analysis: requests
/// looked at, violations found (in all and by kind), and whether its
/// user agent looked like a tool.
pub struct SessionBehaviorSummary {
    pub requests_analyzed: u64,
    pub total_violations: u64,
    pub violations_by_type: StrMap<u64>,
    pub suspicious_ua_detected: bool,
}

/// Behavioural analysis summed over all sessions.
pub struct AggregateBehaviorStats {
    pub sessions_analyzed: usize,
    pub total_requests_analyzed: u64,
    pub total_violations: u64,
    /// Violations of each kind; a kind that some session reported appears,
    /// even with a count of zero.
    pub violations_by_type: StrMap<u64>,
    pub sessions_with_suspicious_ua: usize,
}

/// Requests analysed, summed over the sessions.
pub open spec fn requests_sum(s: Seq<SessionBehaviorSummary>) -> int
    decreases s.len(),
{
    if s.len() == 0 { 0 } else { requests_sum(s.drop_last()) + s.last().requests_analyzed }
}

/// Violations, summed over the sessions.
pub open spec fn violations_sum(s: Seq<SessionBehaviorSummary>) -> int
    decreases s.len(),
{
    if s.len() == 0 { 0 } else { violations_sum(s.drop_last()) + s.last().total_violations }
}

/// How many sessions had a suspicious user agent.
pub open spec fn suspicious_count(s: Seq<SessionBehaviorSummary>) -> int
    decreases s.len(),
{
    if s.len() == 0 { 0 } else { suspicious_count(s.drop_last()) + if s.last().suspicious_ua_detected { 1int } else { 0int } }
}

/// What one session counted for violation kind `k` (zero when it has no entry).
pub open spec fn kind_count(m: Map<Seq<char>, u64>, k: Seq<char>) -> int {
    if m.contains_key(k) { m[k] as int } else { 0 }
}

/// Violations of kind `k`, summed over the sessions.
pub open spec fn kind_sum(s: Seq<SessionBehaviorSummary>, k: Seq<char>) -> int
    decreases s.len(),
{
    if s.len() == 0 { 0 } else { kind_sum(s.drop_last(), k) + kind_count(s.last().violations_by_type.map(), k) }
}

/// Whether some session has an entry for violation kind `k`.
pub open spec fn kind_seen(s: Seq<SessionBehaviorSummary>, k: Seq<char>) -> bool {
    exists|i: int| 0 <= i < s.len() && #[trigger] s[i].violations_by_type.map().contains_key(k)
}

proof fn lemma_prefix_sums(s: Seq<SessionBehaviorSummary>, i: int)
    requires
        0 <= i <= s.len(),
    ensures
        requests_sum(s.take(i)) <= requests_sum(s),
        violations_sum(s.take(i)) <= violations_sum(s),
        suspicious_count(s.take(i)) <= suspicious_count(s),
        forall|k: Seq<char>| #[trigger] kind_sum(s.take(i), k) <= kind_sum(s, k),
    decreases s.len(),
{
    if i == s.len() {
        assert(s.take(i) =~= s);
    } else {
        lemma_prefix_sums(s.drop_last(), i);
        assert(s.drop_last().take(i) =~= s.take(i));
        assert forall|k: Seq<char>| #[trigger] kind_sum(s.take(i), k) <= kind_sum(s, k) by {
            assert(kind_sum(s.drop_last().take(i), k) <= kind_sum(s.drop_last(), k));
        }
    }
}

proof fn lemma_unseen_kind(s: Seq<SessionBehaviorSummary>, k: Seq<char>)
    requires
        !kind_seen(s, k),
    ensures
        kind_sum(s, k) == 0,
    decreases s.len(),
{
    if s.len() > 0 {
        assert(!s[s.len() - 1].violations_by_type.map().contains_key(k));
        assert forall|i: int| 0 <= i < s.drop_last().len() implies !(#[trigger] s.drop_last()[i].violations_by_type.map().contains_key(k)) by {
            assert(s.drop_last()[i] == s[i]);
        }
        lemma_unseen_kind(s.drop_last(), k);
    }
}

impl AggregateBehaviorStats {
    /// Totals over no session at all.
    pub fn new() -> (r: Self)
        ensures
            r.sessions_analyzed == 0,
            r.total_requests_analyzed == 0,
            r.total_violations == 0,
            r.violations_by_type.wf(),
            r.violations_by_type.map() == Map::<Seq<char>, u64>::empty(),
            r.sessions_with_suspicious_ua == 0,
    {
        AggregateBehaviorStats {
            sessions_analyzed: 0,
            total_requests_analyzed: 0,
            total_violations: 0,
            violations_by_type: StrMap::new(),
            sessions_with_suspicious_ua: 0,
        }
    }
}

/// Sums the behavioural analysis of all sessions: requests, violations in
/// all and by kind, and sessions with a suspicious user agent.
pub fn aggregate_behavior_stats(sessions: &Vec<SessionBehaviorSummary>) -> (r: AggregateBehaviorStats)
    requires
        forall|i: int| 0 <= i < sessions@.len() ==> (#[trigger] sessions@[i]).violations_by_type.wf(),
        requests_sum(sessions@) <= u64::MAX,
        violations_sum(sessions@) <= u64::MAX,
        forall|k: Seq<char>| #[trigger] kind_sum(sessions@, k) <= u64::MAX,
    ensures
        r.sessions_analyzed == sessions@.len(),
        r.total_requests_analyzed == requests_sum(sessions@),
        r.total_violations == violations_sum(sessions@),
        r.sessions_with_suspicious_ua == suspicious_count(sessions@),
        r.violations_by_type.wf(),
        forall|k: Seq<char>| #[trigger] r.violations_by_type.map().contains_key(k) <==> kind_seen(sessions@, k),
        forall|k: Seq<char>| r.violations_by_type.map().contains_key(k)
            ==> #[trigger] r.violations_by_type.map()[k] == kind_sum(sessions@, k),
{
    let ghost s = sessions@;
    let mut agg = AggregateBehaviorStats::new();
    let mut i: usize = 0;
    proof {
        assert(s.take(0) =~= Seq::<SessionBehaviorSummary>::empty());
    }
    while i < sessions.len()
        invariant
            s == sessions@,
            i <= s.len(),
            forall|x: int| 0 <= x < s.len() ==> (#[trigger] s[x]).violations_by_type.wf(),
            requests_sum(s) <= u64::MAX,
            violations_sum(s) <= u64::MAX,
            forall|k: Seq<char>| #[trigger] kind_sum(s, k) <= u64::MAX,
            agg.total_requests_analyzed == requests_sum(s.take(i as int)),
            agg.total_violations == violations_sum(s.take(i as int)),
            agg.sessions_with_suspicious_ua == suspicious_count(s.take(i as int)),
            agg.sessions_analyzed == 0,
            agg.violations_by_type.wf(),
            forall|k: Seq<char>| #[trigger] agg.violations_by_type.map().contains_key(k) <==> kind_seen(s.take(i as int), k),
            forall|k: Seq<char>| agg.violations_by_type.map().contains_key(k)
                ==> #[trigger] agg.violations_by_type.map()[k] == kind_sum(s.take(i as int), k),
        decreases s.len() - i,
    {
        let st = &sessions[i];
        let ghost p = s.take(i as int);
        let ghost q = s.take(i + 1);
        proof {
            assert(q.drop_last() =~= p);
            assert(q.last() == s[i as int]);
            lemma_prefix_sums(s, i + 1);
            assert(suspicious_count(q) <= i + 1) by {
                lemma_count_le_len(q);
            }
        }
        agg.total_requests_analyzed = agg.total_requests_analyzed + st.requests_analyzed;
        agg.total_violations = agg.total_violations + st.total_violations;
        if st.suspicious_ua_detected {
            agg.sessions_with_suspicious_ua = agg.sessions_with_suspicious_ua + 1;
        }
        let m = &st.violations_by_type;
        let ghost mm = m.map();
        let ghost ks = m.key_seq();
        proof {
            m.lemma_keys_distinct();
        }
        let n = m.len();
        let mut j: usize = 0;
        while j < n
            invariant
                s == sessions@,
                i < s.len(),
                p == s.take(i as int),
                q == s.take(i + 1),
                q.drop_last() == p,
                q.last() == s[i as int],
                *st == s[i as int],
                *m == st.violations_by_type,
                m.wf(),
                mm == m.map(),
                ks == m.key_seq(),
                ks.no_duplicates(),
                n == ks.len(),
                j <= n,
                forall|k: Seq<char>| #[trigger] kind_sum(q, k) <= u64::MAX,
                agg.total_requests_analyzed == requests_sum(q),
                agg.total_violations == violations_sum(q),
                agg.sessions_with_suspicious_ua == suspicious_count(q),
                agg.sessions_analyzed == 0,
                agg.violations_by_type.wf(),
                forall|k: Seq<char>| #[trigger] agg.violations_by_type.map().contains_key(k)
                    <==> (kind_seen(p, k) || ks.take(j as int).contains(k)),
                forall|k: Seq<char>| agg.violations_by_type.map().contains_key(k)
                    ==> #[trigger] agg.violations_by_type.map()[k] == kind_sum(p, k) + if ks.take(j as int).contains(k) { mm[k] as int } else { 0int },
            decreases n - j,
        {
            let key = m.key_at(j);
            let v = *m.value_at(j);
            let ghost kj = ks[j as int];
            proof {
                assert(!ks.take(j as int).contains(kj)) by {
                    if ks.take(j as int).contains(kj) {
                        let a = choose|a: int| 0 <= a < j && #[trigger] ks.take(j as int)[a] == kj;
                        assert(ks[a] == ks[j as int]);
                    }
                }
                assert(mm.contains_key(kj));
                assert(q.last().violations_by_type.map() == mm);
                assert(kind_count(q.last().violations_by_type.map(), kj) == mm[kj]);
                assert(kind_sum(q, kj) == kind_sum(p, kj) + mm[kj]);
                if !kind_seen(p, kj) {
                    lemma_unseen_kind(p, kj);
                }
                assert(kind_sum(q, kj) <= u64::MAX);
            }
            let current: u64 = match agg.violations_by_type.get(key.as_str()) {
                Some(c) => *c,
                None => 0,
            };
            agg.violations_by_type.insert(key.as_str(), current + v);
            proof {
                let t0 = ks.take(j as int);
                let t1 = ks.take(j + 1);
                assert(t1 =~= t0.push(kj));
                assert forall|k: Seq<char>| #[trigger] t1.contains(k) <==> (t0.contains(k) || k == kj) by {
                    if t1.contains(k) && k != kj {
                        let a = choose|a: int| 0 <= a < t1.len() && #[trigger] t1[a] == k;
                        assert(t0[a] == k);
                    }
                    if t0.contains(k) {
                        let a = choose|a: int| 0 <= a < t0.len() && #[trigger] t0[a] == k;
                        assert(t1[a] == k);
                    }
                    if k == kj {
                        assert(t1[j as int] == kj);
                    }
                }
            }
            j = j + 1;
        }
        proof {
            assert(ks.take(j as int) =~= ks);
            assert forall|k: Seq<char>| #[trigger] agg.violations_by_type.map().contains_key(k) <==> kind_seen(q, k) by {
                if kind_seen(q, k) && !kind_seen(p, k) {
                    let x = choose|x: int| 0 <= x < q.len() && #[trigger] q[x].violations_by_type.map().contains_key(k);
                    if x < i {
                        assert(p[x] == q[x]);
                    }
                }
                if kind_seen(p, k) {
                    let x = choose|x: int| 0 <= x < p.len() && #[trigger] p[x].violations_by_type.map().contains_key(k);
                    assert(q[x] == p[x]);
                }
                if ks.contains(k) {
                    assert(q[i as int].violations_by_type.map().contains_key(k));
                }
            }
        }
        i = i + 1;
    }
    proof {
        assert(s.take(i as int) =~= s);
    }
    agg.sessions_analyzed = sessions.len();
    agg
}

proof fn lemma_count_le_len(s: Seq<SessionBehaviorSummary>)
    ensures
        0 <= suspicious_count(s) <= s.len(),
    decreases s.len(),
{
    if s.len() > 0 {
        lemma_count_le_len(s.drop_last());
    }
}

} // verus!
