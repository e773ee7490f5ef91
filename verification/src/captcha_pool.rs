//! The pool of pre-generated CAPTCHAs: taken oldest first, refilled up to a
//! cap, and partly replaced when a rotation is due.

use vstd::prelude::*;
use crate::clock::unix_time_secs;
use crate::admin::{hex_padded, hex_digit, u64_to_hex_padded};
use crate::text::decimal;
use crate::captcha_image::{generate_captcha_image, is_captcha_image, valid_noise, valid_offsets};
use crate::random::random_below;
use crate::text::push_char;

verus! {

/// Settings of CAPTCHA pre-generation. The CPU level above which
/// generation pauses is compared by the caller.
#[derive(Debug, Clone, Copy, PartialEq, Eq, Structural)]
pub struct CaptchaPregenConfig {
    pub enabled: bool,
    pub target_pool_size: usize,
    /// Below this the pool is refilled.
    pub min_pool_size: usize,
    /// The pool never grows past this.
    pub max_pool_size: usize,
    pub batch_size: usize,
    pub batch_delay_ms: u64,
    /// Share of the pool replaced at each rotation, in percent.
    pub rotation_percent: u8,
    pub rotation_interval_days: u64,
}

impl Default for CaptchaPregenConfig {
    fn default() -> (c: Self)
        ensures
            c == (CaptchaPregenConfig {
                enabled: true,
                target_pool_size: 500,
                min_pool_size: 100,
                max_pool_size: 1000,
                batch_size: 10,
                batch_delay_ms: 100,
                rotation_percent: 25,
                rotation_interval_days: 10,
            }),
    {
        CaptchaPregenConfig {
            enabled: true,
            target_pool_size: 500,
            min_pool_size: 100,
            max_pool_size: 1000,
            batch_size: 10,
            batch_delay_ms: 100,
            rotation_percent: 25,
            rotation_interval_days: 10,
        }
    }
}

/// A CAPTCHA made ahead of time.
#[derive(Debug)]
pub struct PregenCaptcha {
    pub id: String,
    /// The text to type.
    pub answer: String,
    /// The picture, as BMP bytes.
    pub image_data: Vec<u8>,
    pub generated_at: u64,
    pub difficulty: u8,
}

/// Figures about the pool.
#[derive(Debug, Clone, Copy, PartialEq, Eq, Structural)]
pub struct CaptchaPoolStats {
    pub current_size: usize,
    pub target_size: usize,
    pub min_size: usize,
    pub max_size: usize,
    pub oldest_age_seconds: u64,
    pub newest_age_seconds: u64,
    pub needs_refill: bool,
    pub total_generated: u64,
    pub total_served: u64,
    pub total_expired: u64,
}

/// `a - b`, or zero when `b` is larger.
pub open spec fn sat_sub(a: u64, b: u64) -> u64 {
    if a >= b { (a - b) as u64 } else { 0 }
}

/// How many CAPTCHAs a rotation drops from a pool of `len`: `percent`
/// percent of it, rounded down, and never more than the pool holds.
pub open spec fn rotation_count(len: nat, percent: u8) -> int {
    let k = len * percent / 100;
    if k <= len { k } else { len as int }
}

/// Seconds in the rotation interval.
pub open spec fn interval_secs(c: CaptchaPregenConfig) -> int {
    c.rotation_interval_days * 86400
}

/// The characters a CAPTCHA answer is made of: capital letters and digits
/// without the easily confused I, O, 0 and 1.
pub open spec fn captcha_alphabet() -> Seq<char> {
    "ABCDEFGHJKLMNPQRSTUVWXYZ23456789"@
}

/// Whether `a` is a CAPTCHA answer: six characters of the alphabet.
pub open spec fn valid_answer(a: Seq<char>) -> bool {
    a.len() == 6 && forall|i: int| 0 <= i < a.len() ==> captcha_alphabet().contains(#[trigger] a[i])
}

/// Whether `id` is a CAPTCHA identifier: 32 lower-case hexadecimal digits.
pub open spec fn valid_captcha_id(id: Seq<char>) -> bool {
    id.len() == 32 && forall|i: int| 0 <= i < id.len() ==> is_lower_hex(#[trigger] id[i])
}

/// Whether `c` is a lower-case hexadecimal digit.
pub open spec fn is_lower_hex(c: char) -> bool {
    ('0' <= c <= '9') || ('a' <= c <= 'f')
}

/// Whether `c` is a CAPTCHA made at `now` as the pool makes them: a
/// random answer, a random identifier, and the answer's picture with
/// random noise and letter shifts, at medium difficulty.
pub open spec fn freshly_made(c: PregenCaptcha, now: u64) -> bool {
    &&& valid_answer(c.answer@)
    &&& valid_captcha_id(c.id@)
    &&& c.generated_at == now
    &&& c.difficulty == 2
    &&& exists|noise: Seq<(u32, u32, u8)>, offsets: Seq<i32>|
        noise.len() == 800 && valid_noise(noise) && offsets.len() == 6 && valid_offsets(offsets)
        && #[trigger] is_captcha_image(c.image_data@, c.answer@, 6, noise, offsets)
}

proof fn lemma_hex_digit_is_lower_hex(d: nat)
    requires
        d < 16,
    ensures
        is_lower_hex(hex_digit(d)),
{
    reveal_with_fuel(crate::text::decimal, 1);
}

fn alphabet_char(i: u32) -> (c: char)
    requires
        i < 32,
    ensures
        captcha_alphabet().len() == 32,
        c == captcha_alphabet()[i as int],
        '2' <= c <= 'Z',
{
    let a = "ABCDEFGHJKLMNPQRSTUVWXYZ23456789";
    proof {
        reveal_strlit("ABCDEFGHJKLMNPQRSTUVWXYZ23456789");
    }
    a.get_char(i as usize)
}

/// Makes one CAPTCHA at `now`.
pub fn generate_single_at(now: u64) -> (c: PregenCaptcha)
    ensures
        freshly_made(c, now),
{
    let mut answer = String::new();
    let mut k: usize = 0;
    while k < 6
        invariant
            k <= 6,
            answer@.len() == k,
            forall|i: int| 0 <= i < k ==> captcha_alphabet().contains(#[trigger] answer@[i]) && '2' <= answer@[i] <= 'Z',
        decreases 6 - k,
    {
        let j = random_below(32);
        let ch = alphabet_char(j);
        let ghost before = answer@;
        push_char(&mut answer, ch);
        proof {
            assert(captcha_alphabet()[j as int] == ch);
            assert(captcha_alphabet().contains(ch));
            assert(answer@[k as int] == ch);
            assert forall|i: int| 0 <= i < k + 1 implies captcha_alphabet().contains(#[trigger] answer@[i]) && '2' <= answer@[i] <= 'Z' by {
                if i < k {
                    assert(answer@[i] == before[i]);
                }
            }
        }
        k = k + 1;
    }
    let mut id = String::new();
    let mut b: usize = 0;
    while b < 16
        invariant
            b <= 16,
            id@.len() == 2 * b,
            forall|i: int| 0 <= i < id@.len() ==> is_lower_hex(#[trigger] id@[i]),
        decreases 16 - b,
    {
        let byte = random_below(256);
        let h = u64_to_hex_padded(byte as u64, 2);
        let ghost before = id@;
        id.append(h.as_str());
        proof {
            reveal_with_fuel(hex_padded, 3);
            let d0 = (byte as nat / 16) % 16;
            let d1 = byte as nat % 16;
            assert(h@ == seq![hex_digit(d0), hex_digit(d1)]);
            lemma_hex_digit_is_lower_hex(d0);
            lemma_hex_digit_is_lower_hex(d1);
            assert forall|i: int| 0 <= i < id@.len() implies is_lower_hex(#[trigger] id@[i]) by {
                if i < before.len() {
                    assert(id@[i] == before[i]);
                } else if i == before.len() {
                    assert(id@[i] == hex_digit(d0));
                } else {
                    assert(id@[i] == hex_digit(d1));
                }
            }
        }
        b = b + 1;
    }
    let text = answer.as_str();
    proof {
        assert(vstd::utf8::is_ascii_chars(text@));
        vstd::utf8::is_ascii_chars_encode_utf8(text@);
        assert(text.len() == 6);
    }
    let image_data = generate_captcha_image(text);
    proof {
        assert(valid_answer(answer@));
        assert(valid_captcha_id(id@));
    }
    let c = PregenCaptcha { id, answer, image_data, generated_at: now, difficulty: 2 };
    proof {
        let (n, o) = choose|n: Seq<(u32, u32, u8)>, o: Seq<i32>|
            n.len() == 800 && valid_noise(n) && o.len() == text@.len() && valid_offsets(o)
            && #[trigger] is_captcha_image(c.image_data@, text@, text.len() as int, n, o);
        assert(text@ == c.answer@);
        assert(is_captcha_image(c.image_data@, c.answer@, 6, n, o));
        assert(n.len() == 800 && valid_noise(n) && o.len() == 6 && valid_offsets(o));
    }
    c
}

/// What a pass of pre-generation does.
#[derive(Debug, Clone, Copy, PartialEq, Eq, Structural)]
pub enum PregenStep {
    /// The pool is at its cap: nothing is made.
    Full,
    /// The pool is below its target: a batch is made unless the CPU is busy.
    Generate,
    /// The pool is between target and cap: nothing is made.
    Idle,
}

/// The pool of pre-generated CAPTCHAs, oldest first.
pub struct CaptchaPoolManager {
    pub config: CaptchaPregenConfig,
    pub pool: Vec<PregenCaptcha>,
    /// When the pool was last rotated.
    pub last_rotation: u64,
    /// Where the pool is kept on disk.
    pub pool_dir: String,
    pub total_generated: u64,
    pub total_served: u64,
    pub total_expired: u64,
}

/// Whether a loaded CAPTCHA is still young enough at `now` to be served.
pub open spec fn still_fresh(c: PregenCaptcha, now: u64, max_age: int) -> bool {
    c.generated_at <= now && now - c.generated_at < max_age
}

/// A 64-bit counter after `k` increments, wrapping past the top as atomic
/// counters do.
pub open spec fn counter_after(start: u64, k: nat) -> u64 {
    ((start + k) % 0x1_0000_0000_0000_0000) as u64
}

proof fn lemma_counter_step(start: u64, k: nat)
    ensures
        counter_after(start, k + 1) == if counter_after(start, k) < u64::MAX { (counter_after(start, k) + 1) as u64 } else { 0u64 },
{
    let m: int = 0x1_0000_0000_0000_0000;
    let x: int = start + k;
    assert(((x % m) < m - 1 ==> (x + 1) % m == x % m + 1) && ((x % m) == m - 1 ==> (x + 1) % m == 0)) by (nonlinear_arith)
        requires
            m == 0x1_0000_0000_0000_0000,
            x >= 0;
}

/// One increment of a counter, wrapping past the top.
fn bump(n: u64) -> (r: u64)
    ensures
        r == counter_after(n, 1),
{
    proof {
        lemma_counter_step(n, 0);
    }
    if n < u64::MAX { n + 1 } else { 0 }
}

/// The ages of the oldest and newest CAPTCHA of a pool at `now` (zero for an
/// empty pool, and for CAPTCHAs made after `now`).
pub open spec fn pool_ages(entries: Seq<PregenCaptcha>, now: u64) -> (u64, u64) {
    if entries.len() > 0 {
        (sat_sub(now, entries[0].generated_at), sat_sub(now, entries.last().generated_at))
    } else {
        (0, 0)
    }
}

impl CaptchaPoolManager {
    /// The CAPTCHAs in the pool, oldest first.
    pub open spec fn entries(&self) -> Seq<PregenCaptcha> {
        self.pool@
    }

    /// An empty pool last rotated at `now`.
    pub fn new_at(config: CaptchaPregenConfig, pool_dir: String, now: u64) -> (m: Self)
        ensures
            m.config == config,
            m.pool_dir == pool_dir,
            m.last_rotation == now,
            m.entries() == Seq::<PregenCaptcha>::empty(),
            m.total_generated == 0,
            m.total_served == 0,
            m.total_expired == 0,
    {
        CaptchaPoolManager {
            config,
            pool: Vec::new(),
            last_rotation: now,
            pool_dir,
            total_generated: 0,
            total_served: 0,
            total_expired: 0,
        }
    }

    /// An empty pool last rotated now, by the system clock.
    pub fn new(config: CaptchaPregenConfig, pool_dir: String) -> (m: Self)
        ensures
            m.config == config,
            m.pool_dir == pool_dir,
            m.entries() == Seq::<PregenCaptcha>::empty(),
            m.total_generated == 0,
            m.total_served == 0,
            m.total_expired == 0,
    {
        CaptchaPoolManager::new_at(config, pool_dir, unix_time_secs())
    }

    /// Replaces the pool with the CAPTCHAs read from disk that are younger
    /// than the rotation interval at `now`, in their order.
    pub fn load_entries_at(&mut self, loaded: Vec<PregenCaptcha>, now: u64)
        requires
            interval_secs(old(self).config) <= u64::MAX,
        ensures
            final(self).entries() == loaded@.filter(|c: PregenCaptcha| still_fresh(c, now, interval_secs(old(self).config))),
            final(self).config == old(self).config,
            final(self).last_rotation == old(self).last_rotation,
            final(self).total_generated == old(self).total_generated,
            final(self).total_served == old(self).total_served,
            final(self).total_expired == old(self).total_expired,
    {
        let max_age: u64 = self.config.rotation_interval_days * 24 * 3600;
        let ghost all = loaded@;
        let mut rest = loaded;
        let mut kept: Vec<PregenCaptcha> = Vec::new();
        let mut n: usize = 0;
        let total = rest.len();
        proof {
            reveal_with_fuel(Seq::filter, 1);
            assert(all.take(0) =~= Seq::<PregenCaptcha>::empty());
            assert(rest@ =~= all.skip(0));
        }
        while rest.len() > 0
            invariant
                max_age == interval_secs(self.config),
                total == all.len(),
                n + rest@.len() == all.len(),
                rest@ == all.skip(n as int),
                kept@ == all.take(n as int).filter(|c: PregenCaptcha| still_fresh(c, now, max_age as int)),
            decreases rest@.len(),
        {
            assert(n < all.len());
            let c = rest.remove(0);
            proof {
                reveal_with_fuel(Seq::filter, 1);
                assert(c == all[n as int]);
                assert(all.take(n + 1).drop_last() =~= all.take(n as int));
                assert(all.take(n + 1).last() == all[n as int]);
                assert(rest@ =~= all.skip(n + 1));
            }
            if c.generated_at <= now && now - c.generated_at < max_age {
                kept.push(c);
            }
            n = n + 1;
        }
        proof {
            assert(all.take(all.len() as int) =~= all);
        }
        self.pool = kept;
    }

    /// The number of CAPTCHAs in the pool.
    pub fn pool_size(&self) -> (n: usize)
        ensures
            n == self.entries().len(),
    {
        self.pool.len()
    }

    /// Whether the pool is below its refill mark.
    pub fn needs_refill(&self) -> (r: bool)
        ensures
            r == (self.entries().len() < self.config.min_pool_size),
    {
        self.pool.len() < self.config.min_pool_size
    }

    /// Takes the oldest CAPTCHA, if any.
    pub fn take_captcha(&mut self) -> (r: Option<PregenCaptcha>)
        ensures
            old(self).entries().len() == 0 ==> r is None && final(self).entries() == old(self).entries()
                && final(self).total_served == old(self).total_served,
            old(self).entries().len() > 0 ==> r == Some(old(self).entries()[0])
                && final(self).entries() == old(self).entries().drop_first()
                && final(self).total_served == counter_after(old(self).total_served, 1),
            final(self).config == old(self).config,
            final(self).total_generated == old(self).total_generated,
            final(self).total_expired == old(self).total_expired,
            final(self).last_rotation == old(self).last_rotation,
    {
        if self.pool.len() == 0 {
            None
        } else {
            self.total_served = bump(self.total_served);
            let c = self.pool.remove(0);
            proof {
                assert(self.pool@ =~= old(self).pool@.drop_first());
            }
            Some(c)
        }
    }

    /// Adds a CAPTCHA unless the pool is full. Gives back whether the pool
    /// should now be saved: every fiftieth CAPTCHA added.
    pub fn add_captcha(&mut self, captcha: PregenCaptcha) -> (save: bool)
        ensures
            old(self).entries().len() < old(self).config.max_pool_size ==> final(self).entries() == old(self).entries().push(captcha)
                && final(self).total_generated == counter_after(old(self).total_generated, 1)
                && save == (final(self).total_generated % 50 == 0),
            old(self).entries().len() >= old(self).config.max_pool_size ==> final(self).entries() == old(self).entries()
                && final(self).total_generated == old(self).total_generated && !save,
            old(self).entries().len() <= old(self).config.max_pool_size
                ==> final(self).entries().len() <= final(self).config.max_pool_size,
            final(self).config == old(self).config,
            final(self).total_served == old(self).total_served,
            final(self).total_expired == old(self).total_expired,
            final(self).last_rotation == old(self).last_rotation,
    {
        if self.pool.len() < self.config.max_pool_size {
            self.total_generated = bump(self.total_generated);
            self.pool.push(captcha);
            self.total_generated % 50 == 0
        } else {
            false
        }
    }

    /// Whether a rotation is due at `now`; a last rotation after `now`
    /// counts as just now.
    pub fn rotation_due_at(&self, now: u64) -> (r: bool)
        requires
            interval_secs(self.config) <= u64::MAX,
        ensures
            r == (sat_sub(now, self.last_rotation) >= interval_secs(self.config)),
    {
        now.saturating_sub(self.last_rotation) >= self.config.rotation_interval_days * 24 * 3600
    }

    /// Whether a rotation is due, by the system clock.
    pub fn rotation_due(&self) -> (r: bool)
        requires
            interval_secs(self.config) <= u64::MAX,
        ensures
            exists|now: u64| r == (sat_sub(now, self.last_rotation) >= interval_secs(self.config)),
    {
        let now = unix_time_secs();
        self.rotation_due_at(now)
    }

    /// Rotates the pool at the system clock's time, as `rotate_pool_at` does.
    pub fn rotate_pool(&mut self)
        requires
            old(self).entries().len() * old(self).config.rotation_percent <= usize::MAX,
        ensures
            ({
                let n = old(self).entries().len();
                let k = rotation_count(n, old(self).config.rotation_percent);
                &&& final(self).entries().len() == n
                &&& final(self).entries().take(n - k) == old(self).entries().skip(k)
                &&& forall|j: int| n - k <= j < n ==> freshly_made(#[trigger] final(self).entries()[j], final(self).last_rotation)
                &&& final(self).total_expired == counter_after(old(self).total_expired, k as nat)
                &&& final(self).total_generated == counter_after(old(self).total_generated, k as nat)
            }),
            final(self).config == old(self).config,
            final(self).total_served == old(self).total_served,
    {
        let now = unix_time_secs();
        self.rotate_pool_at(now);
    }

    /// Rotates the pool at `now`: the oldest `rotation_percent` percent
    /// (rounded down, and at most the whole pool) are dropped and counted as
    /// expired, and as many fresh CAPTCHAs made at `now` take their place at
    /// the young end, so the pool keeps its size.
    pub fn rotate_pool_at(&mut self, now: u64)
        requires
            old(self).entries().len() * old(self).config.rotation_percent <= usize::MAX,
        ensures
            ({
                let n = old(self).entries().len();
                let k = rotation_count(n, old(self).config.rotation_percent);
                &&& final(self).entries().len() == n
                &&& final(self).entries().take(n - k) == old(self).entries().skip(k)
                &&& forall|j: int| n - k <= j < n ==> freshly_made(#[trigger] final(self).entries()[j], now)
                &&& final(self).total_expired == counter_after(old(self).total_expired, k as nat)
                &&& final(self).total_generated == counter_after(old(self).total_generated, k as nat)
            }),
            final(self).last_rotation == now,
            final(self).config == old(self).config,
            final(self).total_served == old(self).total_served,
    {
        let n: usize = self.pool.len();
        let remove_count: usize = self.pool.len() * (self.config.rotation_percent as usize) / 100;
        let ghost p0 = self.pool@;
        let ghost k = rotation_count(p0.len(), self.config.rotation_percent);
        let mut i: usize = 0;
        while i < remove_count
            invariant
                i <= remove_count,
                remove_count == p0.len() * old(self).config.rotation_percent / 100,
                k == rotation_count(p0.len(), old(self).config.rotation_percent),
                self.pool@ == p0.skip(if i <= p0.len() { i as int } else { p0.len() as int }),
                self.total_expired == counter_after(old(self).total_expired, if i <= p0.len() { i as nat } else { p0.len() }),
                self.config == old(self).config,
                self.total_generated == old(self).total_generated,
                self.total_served == old(self).total_served,
            decreases remove_count - i,
        {
            if self.pool.len() > 0 {
                self.pool.remove(0);
                proof {
                    lemma_counter_step(old(self).total_expired, i as nat);
                }
                self.total_expired = bump(self.total_expired);
                proof {
                    assert(self.pool@ =~= p0.skip(i + 1));
                    lemma_counter_step(old(self).total_expired, i as nat);
                }
            } else {
                proof {
                    assert(i >= p0.len());
                }
            }
            i = i + 1;
        }
        let removed: usize = if remove_count <= n { remove_count } else { n };
        proof {
            assert(self.pool@ == p0.skip(k));
            assert(self.pool@.take(n - k) =~= p0.skip(k));
        }
        let mut j: usize = 0;
        while j < removed
            invariant
                j <= removed,
                removed == k,
                0 <= k <= n,
                n == p0.len(),
                self.pool@.len() == n - k + j,
                self.pool@.take(n - k) == p0.skip(k),
                forall|x: int| n - k <= x < n - k + j ==> freshly_made(#[trigger] self.pool@[x], now),
                self.total_expired == counter_after(old(self).total_expired, k as nat),
                self.total_generated == counter_after(old(self).total_generated, j as nat),
                self.config == old(self).config,
                self.total_served == old(self).total_served,
            decreases removed - j,
        {
            let c = generate_single_at(now);
            let ghost before = self.pool@;
            self.pool.push(c);
            proof {
                assert(self.pool@ == before.push(c));
                lemma_counter_step(old(self).total_generated, j as nat);
                assert(self.pool@.take(n - k) =~= before.take(n - k));
                assert forall|x: int| n - k <= x < n - k + j + 1 implies freshly_made(#[trigger] self.pool@[x], now) by {
                    if x < n - k + j {
                        assert(self.pool@[x] == before[x]);
                    }
                }
            }
            self.total_generated = bump(self.total_generated);
            j = j + 1;
        }
        self.last_rotation = now;
    }

    /// Figures about the pool at `now`; ages of CAPTCHAs made after `now` count as zero.
    pub fn stats_at(&self, now: u64) -> (st: CaptchaPoolStats)
        ensures
            st.current_size == self.entries().len(),
            st.target_size == self.config.target_pool_size,
            st.min_size == self.config.min_pool_size,
            st.max_size == self.config.max_pool_size,
            st.oldest_age_seconds == if self.entries().len() > 0 { sat_sub(now, self.entries()[0].generated_at) } else { 0 },
            st.newest_age_seconds == if self.entries().len() > 0 { sat_sub(now, self.entries().last().generated_at) } else { 0 },
            st.needs_refill == (self.entries().len() < self.config.min_pool_size),
            st.total_generated == self.total_generated,
            st.total_served == self.total_served,
            st.total_expired == self.total_expired,
    {
        let n = self.pool.len();
        let oldest = if n > 0 { now.saturating_sub(self.pool[0].generated_at) } else { 0 };
        let newest = if n > 0 { now.saturating_sub(self.pool[n - 1].generated_at) } else { 0 };
        CaptchaPoolStats {
            current_size: n,
            target_size: self.config.target_pool_size,
            min_size: self.config.min_pool_size,
            max_size: self.config.max_pool_size,
            oldest_age_seconds: oldest,
            newest_age_seconds: newest,
            needs_refill: n < self.config.min_pool_size,
            total_generated: self.total_generated,
            total_served: self.total_served,
            total_expired: self.total_expired,
        }
    }

    /// Makes one CAPTCHA, stamped by the system clock.
    pub fn generate_single(&self) -> (c: PregenCaptcha)
        ensures
            freshly_made(c, c.generated_at),
    {
        generate_single_at(unix_time_secs())
    }

    /// Makes a batch of `batch_size` CAPTCHAs.
    pub fn generate_batch(&self) -> (batch: Vec<PregenCaptcha>)
        ensures
            batch@.len() == self.config.batch_size,
            forall|i: int| 0 <= i < batch@.len() ==> freshly_made(#[trigger] batch@[i], batch@[i].generated_at),
    {
        let mut batch: Vec<PregenCaptcha> = Vec::new();
        let mut i: usize = 0;
        while i < self.config.batch_size
            invariant
                i <= self.config.batch_size,
                batch@.len() == i,
                forall|j: int| 0 <= j < i ==> freshly_made(#[trigger] batch@[j], batch@[j].generated_at),
            decreases self.config.batch_size - i,
        {
            let c = self.generate_single();
            batch.push(c);
            i = i + 1;
        }
        batch
    }

    /// What the pre-generation pass does with a pool of `current_size`.
    pub fn pregen_step(&self, current_size: usize) -> (step: PregenStep)
        ensures
            step == if current_size >= self.config.max_pool_size {
                PregenStep::Full
            } else if current_size < self.config.target_pool_size {
                PregenStep::Generate
            } else {
                PregenStep::Idle
            },
    {
        if current_size >= self.config.max_pool_size {
            PregenStep::Full
        } else if current_size < self.config.target_pool_size {
            PregenStep::Generate
        } else {
            PregenStep::Idle
        }
    }

    /// Whether a batch just brought the pool from below its target to it or
    /// above, which is when the pool is saved.
    pub fn reached_target(&self, size_before: usize, size_after: usize) -> (r: bool)
        ensures
            r == (size_after >= self.config.target_pool_size && size_before < self.config.target_pool_size),
    {
        size_after >= self.config.target_pool_size && size_before < self.config.target_pool_size
    }

    /// Figures about the pool, by the system clock.
    pub fn stats(&self) -> (st: CaptchaPoolStats)
        ensures
            st.current_size == self.entries().len(),
            st.needs_refill == (self.entries().len() < self.config.min_pool_size),
            st.total_generated == self.total_generated,
            st.total_served == self.total_served,
            st.total_expired == self.total_expired,
            st.target_size == self.config.target_pool_size,
            st.min_size == self.config.min_pool_size,
            st.max_size == self.config.max_pool_size,
            exists|now: u64| (st.oldest_age_seconds, st.newest_age_seconds) == #[trigger] pool_ages(self.entries(), now),
    {
        let now = unix_time_secs();
        let st = self.stats_at(now);
        assert((st.oldest_age_seconds, st.newest_age_seconds) == pool_ages(self.entries(), now));
        st
    }
}

} // verus!
