//! Circuit-aware rate limiting: each Tor circuit (not the shared exit
//! address) gets its own request budget per time window, sized by trust tier.

use vstd::prelude::*;
use crate::text::{owned, str_eq};
use crate::tier::{TrustTier, tier_limit};
use crate::clock::unix_time_millis;

verus! {

/// Timestamps (milliseconds) of the requests a circuit made.
pub struct CircuitRequests {
    pub circuit_id: String,
    pub times: Vec<u64>,
}

/// One sighting of a circuit, for counting how many circuits are active.
pub struct ActiveCircuit {
    pub seen_at: u64,
    pub circuit_id: String,
}

/// Per-circuit sliding-window rate limiter.
pub struct GlobalRateLimiter {
    requests: Vec<CircuitRequests>,
    active_circuits: Vec<ActiveCircuit>,
    window_ms: u64,
}

/// Start of the window that ends at `now`.
pub open spec fn window_start(now: u64, window: u64) -> u64 {
    if now >= window { (now - window) as u64 } else { 0 }
}

/// The timestamps strictly after `start`.
pub open spec fn recent(times: Seq<u64>, start: u64) -> Seq<u64> {
    times.filter(|t: u64| t > start)
}

/// The (circuit, timestamps) entries as plain values.
pub open spec fn entry_views(s: Seq<CircuitRequests>) -> Seq<(Seq<char>, Seq<u64>)> {
    s.map_values(|e: CircuitRequests| (e.circuit_id@, e.times@))
}

/// The (time, circuit) sightings as plain values.
pub open spec fn sighting_views(s: Seq<ActiveCircuit>) -> Seq<(u64, Seq<char>)> {
    s.map_values(|a: ActiveCircuit| (a.seen_at, a.circuit_id@))
}

/// The sightings strictly after `start`.
pub open spec fn recent_sightings(s: Seq<(u64, Seq<char>)>, start: u64) -> Seq<(u64, Seq<char>)> {
    s.filter(|p: (u64, Seq<char>)| p.0 > start)
}

/// Entries whose timestamps are cut to the window; circuits left with none are dropped.
pub open spec fn cleaned(s: Seq<(Seq<char>, Seq<u64>)>, start: u64) -> Seq<(Seq<char>, Seq<u64>)>
    decreases s.len(),
{
    if s.len() == 0 {
        s
    } else {
        let r = cleaned(s.drop_last(), start);
        let k = recent(s.last().1, start);
        if k.len() > 0 { r.push((s.last().0, k)) } else { r }
    }
}

/// Whether no circuit id occurs twice.
pub open spec fn distinct_ids(s: Seq<(Seq<char>, Seq<u64>)>) -> bool {
    forall|i: int, j: int| 0 <= i < j < s.len() ==> #[trigger] s[i].0 != #[trigger] s[j].0
}

/// Whether `id` has an entry.
pub open spec fn has_entry(s: Seq<(Seq<char>, Seq<u64>)>, id: Seq<char>) -> bool {
    exists|i: int| 0 <= i < s.len() && #[trigger] s[i].0 == id
}

/// The timestamps recorded for `id` (none when it has no entry).
pub open spec fn times_in(s: Seq<(Seq<char>, Seq<u64>)>, id: Seq<char>) -> Seq<u64> {
    if has_entry(s, id) {
        s[choose|i: int| 0 <= i < s.len() && #[trigger] s[i].0 == id].1
    } else {
        Seq::empty()
    }
}

/// The number of distinct circuits among sightings.
pub open spec fn distinct_circuits(s: Seq<(u64, Seq<char>)>) -> nat {
    s.map_values(|p: (u64, Seq<char>)| p.1).to_set().len()
}

proof fn lemma_times_in_at(s: Seq<(Seq<char>, Seq<u64>)>, i: int)
    requires
        distinct_ids(s),
        0 <= i < s.len(),
    ensures
        has_entry(s, s[i].0),
        times_in(s, s[i].0) == s[i].1,
{
    assert(s[i].0 == s[i].0);
    let j = choose|j: int| 0 <= j < s.len() && #[trigger] s[j].0 == s[i].0;
    if j != i {
        if j < i {
            assert(s[j].0 != s[i].0);
        } else {
            assert(s[i].0 != s[j].0);
        }
    }
}

fn recent_times(times: &Vec<u64>, start: u64) -> (r: Vec<u64>)
    ensures
        r@ == recent(times@, start),
{
    let mut r: Vec<u64> = Vec::new();
    let mut j: usize = 0;
    proof {
        reveal_with_fuel(Seq::filter, 1);
        assert(times@.take(0) =~= Seq::<u64>::empty());
    }
    while j < times.len()
        invariant
            j <= times@.len(),
            r@ == recent(times@.take(j as int), start),
        decreases times@.len() - j,
    {
        let t = times[j];
        proof {
            reveal_with_fuel(Seq::filter, 1);
            assert(times@.take(j + 1).drop_last() =~= times@.take(j as int));
        }
        if t > start {
            r.push(t);
        }
        j = j + 1;
    }
    proof {
        assert(times@.take(times@.len() as int) =~= times@);
    }
    r
}

impl GlobalRateLimiter {
    /// Whether no circuit has two entries.
    pub open spec fn wf(&self) -> bool {
        distinct_ids(self.entries())
    }

    /// Recorded requests per circuit.
    pub closed spec fn entries(&self) -> Seq<(Seq<char>, Seq<u64>)> {
        entry_views(self.requests@)
    }

    /// Recorded circuit sightings.
    pub closed spec fn sightings(&self) -> Seq<(u64, Seq<char>)> {
        sighting_views(self.active_circuits@)
    }

    /// Window length in milliseconds.
    pub closed spec fn window(&self) -> u64 {
        self.window_ms
    }

    /// The timestamps recorded for a circuit.
    pub open spec fn times_of(&self, id: Seq<char>) -> Seq<u64> {
        times_in(self.entries(), id)
    }

    /// An empty limiter whose window lasts `window_secs` seconds.
    pub fn new(window_secs: u64) -> (r: Self)
        requires
            window_secs <= u64::MAX / 1000,
        ensures
            r.wf(),
            r.entries() == Seq::<(Seq<char>, Seq<u64>)>::empty(),
            r.sightings() == Seq::<(u64, Seq<char>)>::empty(),
            r.window() == window_secs * 1000,
    {
        let r = GlobalRateLimiter {
            requests: Vec::new(),
            active_circuits: Vec::new(),
            window_ms: window_secs * 1000,
        };
        proof {
            assert(r.entries() =~= Seq::<(Seq<char>, Seq<u64>)>::empty());
            assert(r.sightings() =~= Seq::<(u64, Seq<char>)>::empty());
        }
        r
    }

    /// Per-circuit limit for a tier.
    pub fn get_limit_for_tier(&self, tier: TrustTier) -> (r: usize)
        ensures
            r == tier_limit(tier),
    {
        tier.rate_limit()
    }

    fn find(&self, id: &str) -> (r: Option<usize>)
        requires
            self.wf(),
        ensures
            match r {
                Some(i) => i < self.entries().len() && self.entries()[i as int].0 == id@
                    && has_entry(self.entries(), id@),
                None => !has_entry(self.entries(), id@),
            },
    {
        let mut i: usize = 0;
        while i < self.requests.len()
            invariant
                i <= self.requests@.len(),
                self.entries().len() == self.requests@.len(),
                forall|j: int| 0 <= j < i ==> #[trigger] self.entries()[j].0 != id@,
            decreases self.requests@.len() - i,
        {
            if str_eq(self.requests[i].circuit_id.as_str(), id) {
                proof {
                    assert(self.entries()[i as int].0 == id@);
                }
                return Some(i);
            }
            proof {
                assert(self.entries()[i as int].0 == self.requests@[i as int].circuit_id@);
            }
            i = i + 1;
        }
        None
    }

    /// Records a sighting of `circuit_id` at `now` after dropping sightings
    /// older than the window.
    pub fn record_active_circuit_at(&mut self, circuit_id: &str, now: u64)
        ensures
            final(self).sightings() == recent_sightings(old(self).sightings(), window_start(now, old(self).window())).push(
                (now, circuit_id@),
            ),
            final(self).entries() == old(self).entries(),
            final(self).window() == old(self).window(),
    {
        let start = if now >= self.window_ms { now - self.window_ms } else { 0 };
        let mut kept: Vec<ActiveCircuit> = Vec::new();
        let mut j: usize = 0;
        let ghost src = self.active_circuits@;
        proof {
            reveal_with_fuel(Seq::filter, 1);
            assert(sighting_views(src.take(0)) =~= Seq::<(u64, Seq<char>)>::empty());
            assert(sighting_views(kept@) =~= recent_sightings(sighting_views(src.take(0)), start));
        }
        while j < self.active_circuits.len()
            invariant
                src == self.active_circuits@,
                j <= src.len(),
                sighting_views(kept@) == recent_sightings(sighting_views(src.take(j as int)), start),
            decreases src.len() - j,
        {
            let at = self.active_circuits[j].seen_at;
            proof {
                reveal_with_fuel(Seq::filter, 1);
                assert(sighting_views(src.take(j + 1)).drop_last() =~= sighting_views(src.take(j as int)));
            }
            if at > start {
                let id = self.active_circuits[j].circuit_id.clone();
                kept.push(ActiveCircuit { seen_at: at, circuit_id: id });
                proof {
                    assert(sighting_views(kept@) =~= sighting_views(kept@.drop_last()).push((at, src[j as int].circuit_id@)));
                }
            }
            j = j + 1;
        }
        proof {
            assert(src.take(src.len() as int) =~= src);
        }
        kept.push(ActiveCircuit { seen_at: now, circuit_id: owned(circuit_id) });
        proof {
            assert(sighting_views(kept@) =~= sighting_views(kept@.drop_last()).push((now, circuit_id@)));
        }
        self.active_circuits = kept;
    }

    /// Records a sighting at the current time.
    pub fn record_active_circuit(&mut self, circuit_id: &str)
        ensures
            exists|now: u64| final(self).sightings() == recent_sightings(old(self).sightings(), #[trigger] window_start(now, old(self).window())).push(
                (now, circuit_id@),
            ),
            final(self).entries() == old(self).entries(),
            final(self).window() == old(self).window(),
    {
        let now = unix_time_millis();
        self.record_active_circuit_at(circuit_id, now);
    }

    /// Admits or refuses a request of `circuit_id` at time `now`: the
    /// circuit's timestamps are first cut to the window; the request is
    /// admitted (and recorded) only when fewer than the tier's limit remain.
    pub fn check_and_record_at(&mut self, circuit_id: &str, tier: TrustTier, now: u64) -> (admitted: bool)
        requires
            old(self).wf(),
        ensures
            final(self).wf(),
            final(self).window() == old(self).window(),
            ({
                let kept = recent(old(self).times_of(circuit_id@), window_start(now, old(self).window()));
                &&& admitted == (kept.len() < tier_limit(tier))
                &&& has_entry(final(self).entries(), circuit_id@)
                &&& final(self).times_of(circuit_id@) == if admitted { kept.push(now) } else { kept }
            }),
            forall|other: Seq<char>| other != circuit_id@ ==> (#[trigger] has_entry(final(self).entries(), other)
                == has_entry(old(self).entries(), other) && final(self).times_of(other) == old(self).times_of(other)),
            admitted ==> final(self).times_of(circuit_id@).len() <= tier_limit(tier),
            admitted ==> final(self).sightings() == recent_sightings(old(self).sightings(), window_start(now, old(self).window())).push(
                (now, circuit_id@)),
            !admitted ==> final(self).sightings() == old(self).sightings(),
    {
        let start = if now >= self.window_ms { now - self.window_ms } else { 0 };
        let ghost e0 = self.entries();
        let idx = match self.find(circuit_id) {
            Some(i) => i,
            None => {
                self.requests.push(CircuitRequests { circuit_id: owned(circuit_id), times: Vec::new() });
                proof {
                    assert(self.entries() =~= e0.push((circuit_id@, Seq::<u64>::empty())));
                    assert forall|a: int, b: int| 0 <= a < b < self.entries().len() implies
                        #[trigger] self.entries()[a].0 != #[trigger] self.entries()[b].0 by {
                        if b == e0.len() {
                            assert(e0[a].0 == self.entries()[a].0);
                        }
                    }
                }
                self.requests.len() - 1
            }
        };
        let ghost e1 = self.entries();
        proof {
            lemma_times_in_at(e1, idx as int);
            assert(e1[idx as int].1 == self.requests@[idx as int].times@);
            if has_entry(e0, circuit_id@) {
                assert(e1 == e0);
            } else {
                assert(!has_entry(e0, circuit_id@));
                assert(times_in(e0, circuit_id@) == Seq::<u64>::empty());
            }
            assert(times_in(e1, circuit_id@) == times_in(e0, circuit_id@));
            assert forall|other: Seq<char>| other != circuit_id@ implies
                #[trigger] has_entry(e1, other) == has_entry(e0, other) && times_in(e1, other) == times_in(e0, other) by {
                if has_entry(e1, other) {
                    let k = choose|k: int| 0 <= k < e1.len() && #[trigger] e1[k].0 == other;
                    lemma_times_in_at(e1, k);
                    assert(k < e0.len());
                    assert(e0[k] == e1[k]);
                    assert(has_entry(e0, other));
                    lemma_times_in_at(e0, k);
                }
                if has_entry(e0, other) {
                    let k = choose|k: int| 0 <= k < e0.len() && #[trigger] e0[k].0 == other;
                    assert(e1[k] == e0[k]);
                }
            }
        }
        let entry = self.requests.remove(idx);
        let CircuitRequests { circuit_id: id_string, times } = entry;
        let mut kept = recent_times(&times, start);
        let limit = tier.rate_limit();
        let admitted = kept.len() < limit;
        if admitted {
            kept.push(now);
        }
        let ghost new_times = kept@;
        self.requests.insert(idx, CircuitRequests { circuit_id: id_string, times: kept });
        let ghost e2 = self.entries();
        proof {
            assert(e2 =~= e1.update(idx as int, (circuit_id@, new_times)));
            assert forall|a: int, b: int| 0 <= a < b < e2.len() implies
                #[trigger] e2[a].0 != #[trigger] e2[b].0 by {
                assert(e2[a].0 == e1[a].0);
                assert(e2[b].0 == e1[b].0);
            }
            lemma_times_in_at(e2, idx as int);
            assert forall|other: Seq<char>| other != circuit_id@ implies
                #[trigger] has_entry(e2, other) == has_entry(e1, other) && times_in(e2, other) == times_in(e1, other) by {
                if has_entry(e2, other) {
                    let k = choose|k: int| 0 <= k < e2.len() && #[trigger] e2[k].0 == other;
                    lemma_times_in_at(e2, k);
                    assert(k != idx);
                    assert(e1[k] == e2[k]);
                    assert(has_entry(e1, other));
                    lemma_times_in_at(e1, k);
                }
                if has_entry(e1, other) {
                    let k = choose|k: int| 0 <= k < e1.len() && #[trigger] e1[k].0 == other;
                    assert(k != idx);
                    assert(e2[k] == e1[k]);
                }
            }
        }
        if admitted {
            self.record_active_circuit_at(circuit_id, now);
        }
        admitted
    }

    /// Admits or refuses a request at the current time; see `check_and_record_at`.
    pub fn check_and_record(&mut self, circuit_id: &str, tier: TrustTier) -> (admitted: bool)
        requires
            old(self).wf(),
        ensures
            final(self).wf(),
            exists|now: u64| {
                let kept = recent(old(self).times_of(circuit_id@), #[trigger] window_start(now, old(self).window()));
                &&& admitted == (kept.len() < tier_limit(tier))
                &&& final(self).times_of(circuit_id@) == if admitted { kept.push(now) } else { kept }
            },
            admitted ==> final(self).times_of(circuit_id@).len() <= tier_limit(tier),
    {
        let now = unix_time_millis();
        self.check_and_record_at(circuit_id, tier, now)
    }

    /// Forgets all requests recorded for a circuit (after it solved a CAPTCHA).
    pub fn clear_circuit_quota(&mut self, circuit_id: &str)
        requires
            old(self).wf(),
        ensures
            final(self).wf(),
            !has_entry(final(self).entries(), circuit_id@),
            forall|other: Seq<char>| other != circuit_id@ ==> (#[trigger] has_entry(final(self).entries(), other)
                == has_entry(old(self).entries(), other) && final(self).times_of(other) == old(self).times_of(other)),
            final(self).sightings() == old(self).sightings(),
            final(self).window() == old(self).window(),
    {
        let ghost e0 = self.entries();
        match self.find(circuit_id) {
            None => {},
            Some(i) => {
                let _gone = self.requests.remove(i);
                let ghost e1 = self.entries();
                proof {
                    assert(e1 =~= e0.remove(i as int));
                    assert forall|a: int, b: int| 0 <= a < b < e1.len() implies
                        #[trigger] e1[a].0 != #[trigger] e1[b].0 by {
                        let a0 = if a < i { a } else { a + 1 };
                        let b0 = if b < i { b } else { b + 1 };
                        assert(e1[a] == e0[a0]);
                        assert(e1[b] == e0[b0]);
                    }
                    assert(!has_entry(e1, circuit_id@)) by {
                        if has_entry(e1, circuit_id@) {
                            let k = choose|k: int| 0 <= k < e1.len() && #[trigger] e1[k].0 == circuit_id@;
                            let k0 = if k < i { k } else { k + 1 };
                            assert(e0[k0].0 == circuit_id@);
                            if k0 < i {
                                assert(e0[k0].0 != e0[i as int].0);
                            } else {
                                assert(e0[i as int].0 != e0[k0].0);
                            }
                        }
                    }
                    assert forall|other: Seq<char>| other != circuit_id@ implies
                        #[trigger] has_entry(e1, other) == has_entry(e0, other) && times_in(e1, other) == times_in(e0, other) by {
                        if has_entry(e1, other) {
                            let k = choose|k: int| 0 <= k < e1.len() && #[trigger] e1[k].0 == other;
                            let k0 = if k < i { k } else { k + 1 };
                            assert(e1[k] == e0[k0]);
                            lemma_times_in_at(e1, k);
                            lemma_times_in_at(e0, k0);
                        }
                        if has_entry(e0, other) {
                            let k0 = choose|k: int| 0 <= k < e0.len() && #[trigger] e0[k].0 == other;
                            assert(k0 != i);
                            let k = if k0 < i { k0 } else { k0 - 1 };
                            assert(e1[k] == e0[k0]);
                        }
                    }
                }
            },
        }
    }

    /// Drops timestamps older than the window that ends at `now`, and the
    /// circuits that are left with none.
    pub fn cleanup_at(&mut self, now: u64)
        requires
            old(self).wf(),
        ensures
            final(self).wf(),
            final(self).entries() == cleaned(old(self).entries(), window_start(now, old(self).window())),
            final(self).sightings() == old(self).sightings(),
            final(self).window() == old(self).window(),
    {
        let start = if now >= self.window_ms { now - self.window_ms } else { 0 };
        let ghost src = self.entries();
        let mut out: Vec<CircuitRequests> = Vec::new();
        let mut j: usize = 0;
        proof {
            assert(src.take(0) =~= Seq::<(Seq<char>, Seq<u64>)>::empty());
            assert(entry_views(out@) =~= cleaned(src.take(0), start));
        }
        while j < self.requests.len()
            invariant
                src == self.entries(),
                distinct_ids(src),
                src.len() == self.requests@.len(),
                j <= src.len(),
                entry_views(out@) == cleaned(src.take(j as int), start),
                distinct_ids(entry_views(out@)),
                forall|a: int| 0 <= a < out@.len() ==> exists|b: int| 0 <= b < j && #[trigger] src[b].0 == #[trigger] entry_views(out@)[a].0,
            decreases src.len() - j,
        {
            let kept = recent_times(&self.requests[j].times, start);
            let ghost before = entry_views(out@);
            proof {
                assert(src.take(j + 1).drop_last() =~= src.take(j as int));
                assert(src[j as int].1 == self.requests@[j as int].times@);
            }
            if kept.len() > 0 {
                let id = self.requests[j].circuit_id.clone();
                out.push(CircuitRequests { circuit_id: id, times: kept });
                proof {
                    assert(entry_views(out@) =~= before.push((src[j as int].0, recent(src[j as int].1, start))));
                    assert forall|a: int, b: int| 0 <= a < b < entry_views(out@).len() implies
                        #[trigger] entry_views(out@)[a].0 != #[trigger] entry_views(out@)[b].0 by {
                        if b == before.len() {
                            let c = choose|c: int| 0 <= c < j && #[trigger] src[c].0 == before[a].0;
                            assert(src[c].0 != src[j as int].0);
                        } else {
                            assert(before[a].0 != before[b].0);
                        }
                    }
                    assert forall|a: int| 0 <= a < out@.len() implies exists|b: int| 0 <= b < j + 1 && #[trigger] src[b].0 == #[trigger] entry_views(out@)[a].0 by {
                        if a == before.len() {
                            assert(src[j as int].0 == entry_views(out@)[a].0);
                        } else {
                            assert(entry_views(out@)[a] == before[a]);
                        }
                    }
                }
            }
            j = j + 1;
        }
        proof {
            assert(src.take(src.len() as int) =~= src);
        }
        self.requests = out;
    }

    /// `cleanup_at` at the current time.
    pub fn cleanup(&mut self)
        requires
            old(self).wf(),
        ensures
            final(self).wf(),
            exists|now: u64| final(self).entries() == cleaned(old(self).entries(), #[trigger] window_start(now, old(self).window())),
            final(self).sightings() == old(self).sightings(),
    {
        let now = unix_time_millis();
        self.cleanup_at(now);
    }

    /// The number of distinct circuits among the recorded sightings.
    pub fn get_active_circuit_count(&self) -> (n: usize)
        ensures
            n == distinct_circuits(self.sightings()),
    {
        let ghost ids = self.sightings().map_values(|p: (u64, Seq<char>)| p.1);
        let mut seen: Vec<String> = Vec::new();
        let mut j: usize = 0;
        while j < self.active_circuits.len()
            invariant
                ids == self.sightings().map_values(|p: (u64, Seq<char>)| p.1),
                ids.len() == self.active_circuits@.len(),
                j <= ids.len(),
                crate::text::views(seen@).no_duplicates(),
                forall|x: Seq<char>| crate::text::views(seen@).contains(x) <==> ids.take(j as int).contains(x),
            decreases ids.len() - j,
        {
            let id = &self.active_circuits[j].circuit_id;
            proof {
                assert(ids[j as int] == id@);
                assert(ids.take(j + 1) =~= ids.take(j as int).push(id@));
            }
            if !crate::text::contains_string(&seen, id.as_str()) {
                let ghost before = crate::text::views(seen@);
                seen.push(id.clone());
                proof {
                    assert(crate::text::views(seen@) =~= before.push(id@));
                    assert forall|x: Seq<char>| crate::text::views(seen@).contains(x) <==> ids.take(j + 1).contains(x) by {
                        if ids.take(j + 1).contains(x) {
                            let k = choose|k: int| 0 <= k < j + 1 && #[trigger] ids.take(j + 1)[k] == x;
                            if k < j {
                                assert(ids.take(j as int)[k] == x);
                                assert(before.contains(x));
                                let m = choose|m: int| 0 <= m < before.len() && #[trigger] before[m] == x;
                                assert(crate::text::views(seen@)[m] == x);
                            } else {
                                assert(crate::text::views(seen@)[before.len() as int] == x);
                            }
                        }
                        if crate::text::views(seen@).contains(x) {
                            let k = choose|k: int| 0 <= k < crate::text::views(seen@).len() && #[trigger] crate::text::views(seen@)[k] == x;
                            if k < before.len() {
                                assert(before[k] == x);
                                assert(before.contains(x));
                                let m = choose|m: int| 0 <= m < j && #[trigger] ids.take(j as int)[m] == x;
                                assert(ids.take(j + 1)[m] == x);
                            } else {
                                assert(ids.take(j + 1)[j as int] == x);
                            }
                        }
                    }
                }
            } else {
                proof {
                    assert forall|x: Seq<char>| crate::text::views(seen@).contains(x) <==> ids.take(j + 1).contains(x) by {
                        if ids.take(j + 1).contains(x) {
                            let k = choose|k: int| 0 <= k < j + 1 && #[trigger] ids.take(j + 1)[k] == x;
                            if k < j {
                                assert(ids.take(j as int)[k] == x);
                            } else {
                                assert(x == id@);
                                assert(crate::text::views(seen@).contains(id@));
                            }
                            assert(crate::text::views(seen@).contains(x));
                        }
                        if crate::text::views(seen@).contains(x) {
                            assert(ids.take(j as int).contains(x));
                            assert(ids.take(j + 1).contains(x));
                        }
                        if crate::text::views(seen@).contains(x) {
                            let m = choose|m: int| 0 <= m < j && #[trigger] ids.take(j as int)[m] == x;
                            assert(ids.take(j + 1)[m] == x);
                        }
                    }
                }
            }
            j = j + 1;
        }
        proof {
            assert(ids.take(ids.len() as int) =~= ids);
            crate::text::views(seen@).unique_seq_to_set();
            assert(crate::text::views(seen@).to_set() =~= ids.to_set());
        }
        seen.len()
    }
}

/// Once a circuit's quota is cleared, its next request is admitted whatever its tier.
pub proof fn law_cleared_circuit_is_admitted(entries: Seq<(Seq<char>, Seq<u64>)>, circuit_id: Seq<char>, start: u64, tier: TrustTier)
    requires
        !has_entry(entries, circuit_id),
    ensures
        recent(times_in(entries, circuit_id), start).len() < tier_limit(tier),
{
    reveal_with_fuel(Seq::filter, 1);
    assert(times_in(entries, circuit_id) == Seq::<u64>::empty());
}

} // verus!
