//! The administration panel's state: sessions and their histories, bans and
//! tier overrides, nodes, mirrors, traffic counters and panel logins.

use vstd::prelude::*;
use std::hash::{Hash, Hasher};
use crate::clock::unix_time_secs;
use crate::strmap::StrMap;
use crate::tier::{tier_name, TrustTier};
use crate::text::{owned, push_char, str_eq, u64_to_decimal, decimal, concat_str, split_on, split_char, lemma_split_on_nonempty, parse_usize, parse_usize_spec};

verus! {

/// Header that carries the token of internal administrative calls.
pub const AUTH_TOKEN_HEADER: &'static str = "X-Fortify-Admin-Token";

/// The panel password the internal token is derived from.
pub const ADMIN_PASSWORD: &'static str = "pleaseletmein123";

/// What `DefaultHasher::new()` gives for a string after `Hash::hash` and `finish`.
pub uninterp spec fn default_hash(s: Seq<char>) -> u64;

/// Hashes a string with a freshly made `std::collections::hash_map::DefaultHasher`
/// (whose keys are fixed, unlike those of `RandomState`); the result is named
/// `default_hash` of the string and nothing more is claimed of it. std says
/// the hasher's algorithm may change between releases, so the name stands
/// for one build.
#[verifier::external_body]
fn hash_with_default_hasher(s: &str) -> (h: u64)
    ensures
        h == default_hash(s@),
{
    let mut hasher = std::collections::hash_map::DefaultHasher::new();
    s.hash(&mut hasher);
    hasher.finish()
}

/// The lower-case hexadecimal digit for a value below sixteen.
pub open spec fn hex_digit(d: nat) -> char {
    if d < 10 { digit_of(d) } else if d == 10 { 'a' } else if d == 11 { 'b' } else if d == 12 { 'c' }
    else if d == 13 { 'd' } else if d == 14 { 'e' } else { 'f' }
}

/// The decimal digit for a value below ten.
pub open spec fn digit_of(d: nat) -> char {
    decimal(d)[0]
}

/// The lower-case hexadecimal rendering of a number, without leading zeros.
pub open spec fn hex(n: nat) -> Seq<char>
    decreases n,
{
    if n < 16 { seq![hex_digit(n)] } else { hex(n / 16).push(hex_digit(n % 16)) }
}

fn hex_char(d: u64) -> (c: char)
    requires
        d < 16,
    ensures
        c == hex_digit(d as nat),
{
    if d < 10 {
        let s = u64_to_decimal(d);
        proof {
            reveal_with_fuel(decimal, 1);
        }
        let v = crate::text::chars_of(s.as_str());
        v[0]
    } else if d == 10 { 'a' } else if d == 11 { 'b' } else if d == 12 { 'c' }
    else if d == 13 { 'd' } else if d == 14 { 'e' } else { 'f' }
}

/// Renders a number in lower-case hexadecimal, as `format!("{:x}")` does.
pub fn u64_to_hex(n: u64) -> (s: String)
    ensures
        s@ == hex(n as nat),
    decreases n,
{
    if n < 16 {
        let mut s = String::new();
        push_char(&mut s, hex_char(n));
        proof {
            assert(s@ =~= seq![hex_digit(n as nat)]);
        }
        s
    } else {
        let mut s = u64_to_hex(n / 16);
        push_char(&mut s, hex_char(n % 16));
        s
    }
}

/// The last `width` lower-case hexadecimal digits of a number, zero-padded
/// on the left; for a number below `16^width` this is what
/// `format!("{:0width$x}")` gives.
pub open spec fn hex_padded(n: nat, width: nat) -> Seq<char>
    decreases width,
{
    if width == 0 { Seq::empty() } else { hex_padded(n / 16, (width - 1) as nat).push(hex_digit(n % 16)) }
}

/// Renders the last `width` hexadecimal digits of `n`, zero-padded.
pub fn u64_to_hex_padded(n: u64, width: usize) -> (s: String)
    ensures
        s@ == hex_padded(n as nat, width as nat),
    decreases width,
{
    if width == 0 {
        let s = String::new();
        proof {
            assert(s@ =~= Seq::<char>::empty());
        }
        s
    } else {
        let mut s = u64_to_hex_padded(n / 16, width - 1);
        push_char(&mut s, hex_char(n % 16));
        s
    }
}

/// What a freshly made `DefaultHasher` gives after `Hash::hash` of a time
/// and then of a process id, and `finish`.
pub uninterp spec fn default_hash_time_pid(now: u64, pid: u32) -> u64;

/// Hashes a time and then a process id with a freshly made
/// `std::collections::hash_map::DefaultHasher` (fixed keys); the result is
/// named `default_hash_time_pid` of the two and nothing more is claimed.
/// The numbers are hashed as native-endian bytes, and std says the hasher's
/// algorithm may change between releases, so the name stands for one build
/// on one machine.
#[verifier::external_body]
fn hash_time_and_pid(now: u64, pid: u32) -> (h: u64)
    ensures
        h == default_hash_time_pid(now, pid),
{
    let mut hasher = std::collections::hash_map::DefaultHasher::new();
    now.hash(&mut hasher);
    pid.hash(&mut hasher);
    hasher.finish()
}

/// The identifier the panel makes for a login or a placeholder mirror at
/// `now` in process `pid`: the hash of the two, then the time, each as
/// sixteen hexadecimal digits.
pub open spec fn panel_id(now: u64, pid: u32) -> Seq<char> {
    hex_padded(default_hash_time_pid(now, pid) as nat, 16) + hex_padded(now as nat, 16)
}

proof fn lemma_hex_padded_ascii(n: nat, width: nat)
    ensures
        hex_padded(n, width).len() == width,
        vstd::utf8::is_ascii_chars(hex_padded(n, width)),
    decreases width,
{
    reveal_with_fuel(crate::text::decimal, 1);
    if width > 0 {
        lemma_hex_padded_ascii(n / 16, (width - 1) as nat);
        let d = n % 16;
        assert(('0' <= hex_digit(d) <= '9') || ('a' <= hex_digit(d) <= 'f'));
        let p = hex_padded(n / 16, (width - 1) as nat);
        assert forall|i| 0 <= i < hex_padded(n, width).len() implies '\0' <= #[trigger] hex_padded(n, width)[i] <= '\u{7f}' by {
            if i < p.len() {
                assert(hex_padded(n, width)[i] == p[i]);
            }
        }
    }
}

/// Makes the panel's identifier for `now` and process `pid`: thirty-two
/// lower-case hexadecimal digits.
pub fn uuid_v4_at(now: u64, pid: u32) -> (r: String)
    ensures
        r@ == panel_id(now, pid),
        r@.len() == 32,
        vstd::utf8::is_ascii_chars(r@),
{
    let h = hash_time_and_pid(now, pid);
    let mut s = u64_to_hex_padded(h, 16);
    let t = u64_to_hex_padded(now, 16);
    s.append(t.as_str());
    proof {
        lemma_hex_padded_ascii(h as nat, 16);
        lemma_hex_padded_ascii(now as nat, 16);
        vstd::utf8::is_ascii_chars_concat(s@, hex_padded(h as nat, 16), hex_padded(now as nat, 16));
    }
    s
}

/// The token for a password: its default hash, in hexadecimal.
pub fn generate_auth_token(password: &str) -> (t: String)
    ensures
        t@ == hex(default_hash(password@) as nat),
{
    u64_to_hex(hash_with_default_hasher(password))
}

/// Sixteen to the power `k`.
pub open spec fn pow16(k: nat) -> nat
    decreases k,
{
    if k == 0 { 1 } else { 16 * pow16((k - 1) as nat) }
}

/// A lower-case hexadecimal digit.
pub open spec fn lower_hex_digit(c: char) -> bool {
    ('0' <= c <= '9') || ('a' <= c <= 'f')
}

proof fn lemma_hex_shape(n: nat, k: nat)
    requires
        n < pow16(k),
    ensures
        1 <= hex(n).len() <= (if k == 0 { 1 } else { k }),
        forall|i: int| 0 <= i < hex(n).len() ==> lower_hex_digit(#[trigger] hex(n)[i]),
    decreases n,
{
    reveal_with_fuel(crate::text::decimal, 1);
    reveal_with_fuel(pow16, 2);
    if n >= 16 {
        let p = pow16((k - 1) as nat);
        assert(k >= 2);
        assert(n / 16 < p) by (nonlinear_arith)
            requires
                n < 16 * p,
        ;
        lemma_hex_shape(n / 16, (k - 1) as nat);
        let d = n % 16;
        assert(lower_hex_digit(hex_digit(d)));
        assert forall|i: int| 0 <= i < hex(n).len() implies lower_hex_digit(#[trigger] hex(n)[i]) by {
            if i < hex(n / 16).len() {
                assert(hex(n)[i] == hex(n / 16)[i]);
            }
        }
    }
}

/// The panel token of any password is one to sixteen lower-case
/// hexadecimal digits: the hexadecimal form of a 64-bit hash.
pub proof fn law_auth_token_is_short_hex(password: Seq<char>)
    ensures
        1 <= hex(default_hash(password) as nat).len() <= 16,
        forall|i: int| 0 <= i < hex(default_hash(password) as nat).len()
            ==> lower_hex_digit(#[trigger] hex(default_hash(password) as nat)[i]),
{
    assert(pow16(16) == 18446744073709551616) by {
        reveal_with_fuel(pow16, 17);
    }
    lemma_hex_shape(default_hash(password) as nat, 16);
}

/// The token of internal administrative calls.
pub fn get_auth_token() -> (t: String)
    ensures
        t@ == hex(default_hash(ADMIN_PASSWORD@) as nat),
{
    generate_auth_token(ADMIN_PASSWORD)
}

/// Seconds since the Unix epoch, by the system clock.
pub fn now() -> u64 {
    unix_time_secs()
}

/// What an entry of a session's history records.
#[derive(Debug, Clone, Copy, PartialEq, Eq, Structural)]
pub enum HistoryEventType {
    /// A page was requested.
    PageRequest,
    /// An administrator changed the session's tier.
    AdminTierChange,
    /// The system demoted the session.
    AutoDemotion,
    SessionBanned,
    SessionUnbanned,
    /// The session was killed as a repeat offender.
    SessionKilled,
    CaptchaVerified,
    ViolationDetected,
}

impl Default for HistoryEventType {
    fn default() -> (e: Self)
        ensures
            e == HistoryEventType::PageRequest,
    {
        HistoryEventType::PageRequest
    }
}

/// The icon shown beside an event.
pub open spec fn event_icon(e: HistoryEventType) -> Seq<char> {
    match e {
        HistoryEventType::PageRequest => "📄"@,
        HistoryEventType::AdminTierChange => "👮"@,
        HistoryEventType::AutoDemotion => "⚠️"@,
        HistoryEventType::SessionBanned => "🚫"@,
        HistoryEventType::SessionUnbanned => "✅"@,
        HistoryEventType::SessionKilled => "💀"@,
        HistoryEventType::CaptchaVerified => "🔓"@,
        HistoryEventType::ViolationDetected => "🚨"@,
    }
}

/// The style class of an event's row.
pub open spec fn event_class(e: HistoryEventType) -> Seq<char> {
    match e {
        HistoryEventType::PageRequest => ""@,
        HistoryEventType::AdminTierChange => "event-admin"@,
        HistoryEventType::AutoDemotion => "event-warning"@,
        HistoryEventType::SessionBanned => "event-danger"@,
        HistoryEventType::SessionUnbanned => "event-success"@,
        HistoryEventType::SessionKilled => "event-danger"@,
        HistoryEventType::CaptchaVerified => "event-success"@,
        HistoryEventType::ViolationDetected => "event-warning"@,
    }
}

impl HistoryEventType {
    /// The icon shown beside the event.
    pub fn icon(&self) -> (r: &'static str)
        ensures
            r@ == event_icon(*self),
    {
        match self {
            HistoryEventType::PageRequest => "📄",
            HistoryEventType::AdminTierChange => "👮",
            HistoryEventType::AutoDemotion => "⚠️",
            HistoryEventType::SessionBanned => "🚫",
            HistoryEventType::SessionUnbanned => "✅",
            HistoryEventType::SessionKilled => "💀",
            HistoryEventType::CaptchaVerified => "🔓",
            HistoryEventType::ViolationDetected => "🚨",
        }
    }

    /// The style class of the event's row.
    pub fn css_class(&self) -> (r: &'static str)
        ensures
            r@ == event_class(*self),
    {
        match self {
            HistoryEventType::PageRequest => "",
            HistoryEventType::AdminTierChange => "event-admin",
            HistoryEventType::AutoDemotion => "event-warning",
            HistoryEventType::SessionBanned => "event-danger",
            HistoryEventType::SessionUnbanned => "event-success",
            HistoryEventType::SessionKilled => "event-danger",
            HistoryEventType::CaptchaVerified => "event-success",
            HistoryEventType::ViolationDetected => "event-warning",
        }
    }
}

/// One line of a session's history.
#[derive(Debug)]
pub struct HistoryEntry {
    pub timestamp: u64,
    pub event_type: HistoryEventType,
    /// The requested path, or a short description of an event.
    pub path: String,
    /// The request method, or who caused the event.
    pub method: String,
    /// The response status, or zero for an event.
    pub status_code: u16,
    /// Why the event happened, when that is known.
    pub reason: Option<String>,
}

/// A history line as plain values.
pub struct HistoryView {
    pub timestamp: u64,
    pub event_type: HistoryEventType,
    pub path: Seq<char>,
    pub method: Seq<char>,
    pub status_code: u16,
    pub reason: Option<Seq<char>>,
}

impl View for HistoryEntry {
    type V = HistoryView;

    open spec fn view(&self) -> HistoryView {
        HistoryView {
            timestamp: self.timestamp,
            event_type: self.event_type,
            path: self.path@,
            method: self.method@,
            status_code: self.status_code,
            reason: match self.reason {
                Some(r) => Some(r@),
                None => None,
            },
        }
    }
}

/// Whether `r` is the record of a session first seen at `now` on its way
/// to the CAPTCHA gateway: id `sid`, tier `tier`, come through `mirror`, and
/// nothing counted yet.
pub open spec fn fresh_visitor(r: SessionInfo, sid: Seq<char>, tier: TrustTier, now: u64, mirror: Seq<char>) -> bool {
    &&& r.session_id@ == sid
    &&& r.trust_tier@ == tier_name(tier)
    &&& r.request_count == 0 && r.violation_count == 0 && r.page_loads == 0
    &&& r.created_at == now && r.last_activity == now
    &&& r.browsing_history@.len() == 0
    &&& !r.is_banned && r.demotion_count == 0 && !r.is_killed
    &&& r.current_node@ == Seq::<char>::empty()
    &&& r.total_bytes == 0
    &&& r.current_mirror@ == mirror
}

/// The record of a session first seen at `now` on its way to the CAPTCHA gateway.
pub fn visitor_session_at(sid: &str, tier: TrustTier, now: u64, mirror: &str) -> (r: SessionInfo)
    ensures
        fresh_visitor(r, sid@, tier, now, mirror@),
{
    SessionInfo {
        session_id: owned(sid),
        trust_tier: owned(tier.as_str()),
        request_count: 0,
        violation_count: 0,
        page_loads: 0,
        created_at: now,
        last_activity: now,
        browsing_history: Vec::new(),
        is_banned: false,
        demotion_count: 0,
        is_killed: false,
        current_node: String::new(),
        total_bytes: 0,
        current_mirror: owned(mirror),
    }
}

/// The most lines a history keeps.
pub const HISTORY_LIMIT: usize = 100;

/// A history after one more line: the oldest line goes when there are too many.
pub open spec fn capped(h: Seq<HistoryView>) -> Seq<HistoryView> {
    if h.len() > HISTORY_LIMIT { h.drop_first() } else { h }
}

/// The views of a list of history lines.
pub open spec fn history_views(h: Seq<HistoryEntry>) -> Seq<HistoryView> {
    h.map_values(|e: HistoryEntry| e@)
}

fn copy_entry(e: &HistoryEntry) -> (r: HistoryEntry)
    ensures
        r == *e,
{
    HistoryEntry {
        timestamp: e.timestamp,
        event_type: e.event_type,
        path: e.path.clone(),
        method: e.method.clone(),
        status_code: e.status_code,
        reason: match &e.reason {
            Some(s) => Some(s.clone()),
            None => None,
        },
    }
}

/// Appends a line to a history, dropping the oldest beyond the limit.
pub fn push_history(h: &mut Vec<HistoryEntry>, e: HistoryEntry)
    ensures
        history_views(final(h)@) == capped(history_views(old(h)@).push(e@)),
{
    let ghost h0 = h@;
    h.push(e);
    proof {
        assert(history_views(h@) =~= history_views(h0).push(e@));
    }
    if h.len() > HISTORY_LIMIT {
        let ghost h1 = h@;
        h.remove(0);
        proof {
            assert(history_views(h@) =~= history_views(h1).drop_first());
        }
    }
}


/// What the panel knows of a session.
#[derive(Debug)]
pub struct SessionInfo {
    pub session_id: String,
    pub trust_tier: String,
    pub request_count: u64,
    pub violation_count: u32,
    pub page_loads: u64,
    pub created_at: u64,
    pub last_activity: u64,
    pub browsing_history: Vec<HistoryEntry>,
    pub is_banned: bool,
    /// How often the session was demoted and verified again.
    pub demotion_count: u32,
    /// A repeat offender, cut off for good.
    pub is_killed: bool,
    pub current_node: String,
    pub total_bytes: u64,
    /// The onion address the client came through.
    pub current_mirror: String,
}

/// The history of a session as plain values.
pub open spec fn hist(s: SessionInfo) -> Seq<HistoryView> {
    history_views(s.browsing_history@)
}

/// A history line as plain values.
pub open spec fn line(
    timestamp: u64,
    event_type: HistoryEventType,
    path: Seq<char>,
    method: Seq<char>,
    status_code: u16,
    reason: Option<Seq<char>>,
) -> HistoryView {
    HistoryView { timestamp, event_type, path, method, status_code, reason }
}

fn copy_history(h: &Vec<HistoryEntry>) -> (r: Vec<HistoryEntry>)
    ensures
        r@ == h@,
{
    let mut r: Vec<HistoryEntry> = Vec::new();
    let mut i: usize = 0;
    while i < h.len()
        invariant
            i <= h@.len(),
            r@ == h@.take(i as int),
        decreases h@.len() - i,
    {
        r.push(copy_entry(&h[i]));
        proof {
            assert(r@ =~= h@.take(i + 1));
        }
        i = i + 1;
    }
    proof {
        assert(h@.take(h@.len() as int) =~= h@);
    }
    r
}

/// Two session records that agree in every field and history line.
pub open spec fn same_session(a: SessionInfo, b: SessionInfo) -> bool {
    a == (SessionInfo { browsing_history: a.browsing_history, ..b }) && a.browsing_history@ == b.browsing_history@
}

fn copy_session(s: &SessionInfo) -> (r: SessionInfo)
    ensures
        same_session(r, *s),
{
    SessionInfo {
        session_id: s.session_id.clone(),
        trust_tier: s.trust_tier.clone(),
        request_count: s.request_count,
        violation_count: s.violation_count,
        page_loads: s.page_loads,
        created_at: s.created_at,
        last_activity: s.last_activity,
        browsing_history: copy_history(&s.browsing_history),
        is_banned: s.is_banned,
        demotion_count: s.demotion_count,
        is_killed: s.is_killed,
        current_node: s.current_node.clone(),
        total_bytes: s.total_bytes,
        current_mirror: s.current_mirror.clone(),
    }
}

/// What the panel knows of a backend node.
#[derive(Debug)]
pub struct NodeInfo {
    pub id: String,
    pub bind_addr: String,
    pub onion_address: Option<String>,
    /// "healthy" or "threat".
    pub mode: String,
    pub status: String,
    pub created_at: u64,
    pub total_requests: u64,
    pub active_connections: usize,
    pub violations_detected: u64,
}

fn copy_node_info(n: &NodeInfo) -> (r: NodeInfo)
    ensures
        r == *n,
{
    NodeInfo {
        id: n.id.clone(),
        bind_addr: n.bind_addr.clone(),
        onion_address: match &n.onion_address {
            Some(a) => Some(a.clone()),
            None => None,
        },
        mode: n.mode.clone(),
        status: n.status.clone(),
        created_at: n.created_at,
        total_requests: n.total_requests,
        active_connections: n.active_connections,
        violations_detected: n.violations_detected,
    }
}

/// What the panel knows of a mirror.
#[derive(Debug)]
pub struct MirrorInfo {
    pub id: String,
    pub onion_address: String,
    pub status: String,
    pub created_at: u64,
    pub total_requests: u64,
}

fn copy_mirror_info(m: &MirrorInfo) -> (r: MirrorInfo)
    ensures
        r == *m,
{
    MirrorInfo {
        id: m.id.clone(),
        onion_address: m.onion_address.clone(),
        status: m.status.clone(),
        created_at: m.created_at,
        total_requests: m.total_requests,
    }
}

/// How the protected service presents itself.
#[derive(Debug)]
pub struct BrandingConfig {
    pub service_name: String,
    pub description: String,
    pub welcome_message: String,
    /// "#RRGGBB".
    pub primary_color: String,
    pub secondary_color: String,
    pub tertiary_color: String,
    pub custom_css: Option<String>,
}

impl Default for BrandingConfig {
    fn default() -> (c: Self)
        ensures
            c.service_name@ == "Fortify"@,
            c.description@ == "Protected Gateway"@,
            c.welcome_message@ == "Complete verification to enter"@,
            c.primary_color@ == "#c9a227"@,
            c.secondary_color@ == "#a68b5b"@,
            c.tertiary_color@ == "#8b7355"@,
            c.custom_css.is_none(),
    {
        BrandingConfig {
            service_name: owned("Fortify"),
            description: owned("Protected Gateway"),
            welcome_message: owned("Complete verification to enter"),
            primary_color: owned("#c9a227"),
            secondary_color: owned("#a68b5b"),
            tertiary_color: owned("#8b7355"),
            custom_css: None,
        }
    }
}

fn copy_branding(b: &BrandingConfig) -> (r: BrandingConfig)
    ensures
        r == *b,
{
    BrandingConfig {
        service_name: b.service_name.clone(),
        description: b.description.clone(),
        welcome_message: b.welcome_message.clone(),
        primary_color: b.primary_color.clone(),
        secondary_color: b.secondary_color.clone(),
        tertiary_color: b.tertiary_color.clone(),
        custom_css: match &b.custom_css {
            Some(c) => Some(c.clone()),
            None => None,
        },
    }
}

/// Settings of the panel's CAPTCHA pool.
#[derive(Debug, Clone, Copy, PartialEq, Eq, Structural)]
pub struct CaptchaPoolConfig {
    pub pool_size: usize,
    pub min_pool_size: usize,
    pub max_pool_size: usize,
    /// From 1 to 10.
    pub difficulty: u8,
    pub timeout_seconds: u64,
    pub max_attempts: u32,
    pub rotation_percent: u8,
    pub rotation_interval_days: u32,
}

impl CaptchaPoolConfig {
    /// The default settings.
    pub open spec fn default_spec() -> CaptchaPoolConfig {
        CaptchaPoolConfig {
            pool_size: 500,
            min_pool_size: 100,
            max_pool_size: 1000,
            difficulty: 5,
            timeout_seconds: 120,
            max_attempts: 3,
            rotation_percent: 25,
            rotation_interval_days: 10,
        }
    }
}

impl Default for CaptchaPoolConfig {
    fn default() -> (c: Self)
        ensures
            c == (CaptchaPoolConfig {
                pool_size: 500,
                min_pool_size: 100,
                max_pool_size: 1000,
                difficulty: 5,
                timeout_seconds: 120,
                max_attempts: 3,
                rotation_percent: 25,
                rotation_interval_days: 10,
            }),
    {
        CaptchaPoolConfig {
            pool_size: 500,
            min_pool_size: 100,
            max_pool_size: 1000,
            difficulty: 5,
            timeout_seconds: 120,
            max_attempts: 3,
            rotation_percent: 25,
            rotation_interval_days: 10,
        }
    }
}

/// Settings of one kind of CAPTCHA.
#[derive(Debug)]
pub struct CaptchaTypeSettings {
    pub type_key: String,
    pub enabled: bool,
    /// Choices shown, for kinds that offer choices.
    pub option_count: usize,
    /// From 1 to 3.
    pub difficulty: u8,
    pub min_pool_size: usize,
}

/// The option count and difficulty a kind of CAPTCHA starts with.
pub open spec fn type_defaults(name: Seq<char>) -> (usize, u8) {
    if name == "BmpText"@ { (0, 2) }
    else if name == "Emoji"@ { (6, 2) }
    else if name == "Direction"@ { (4, 1) }
    else if name == "Sequence"@ { (4, 2) }
    else if name == "WordUnscramble"@ { (0, 2) }
    else if name == "ImageRotation"@ { (4, 2) }
    else if name == "Silhouette"@ { (4, 2) }
    else { (4, 2) }
}

/// The kinds of CAPTCHA, in the order the panel shows them.
pub open spec fn captcha_type_keys() -> Seq<Seq<char>> {
    seq!["BmpText"@, "Emoji"@, "Direction"@, "Sequence"@, "WordUnscramble"@, "ImageRotation"@, "Silhouette"@]
}

/// Default settings of a kind.
pub open spec fn default_type_settings(t: CaptchaTypeSettings, name: Seq<char>) -> bool {
    &&& t.type_key@ == name
    &&& t.enabled
    &&& t.option_count == type_defaults(name).0
    &&& t.difficulty == type_defaults(name).1
    &&& t.min_pool_size == 50
}

fn copy_type_settings(t: &CaptchaTypeSettings) -> (r: CaptchaTypeSettings)
    ensures
        r == *t,
{
    CaptchaTypeSettings {
        type_key: t.type_key.clone(),
        enabled: t.enabled,
        option_count: t.option_count,
        difficulty: t.difficulty,
        min_pool_size: t.min_pool_size,
    }
}

impl CaptchaTypeSettings {
    /// The default settings of a kind.
    pub fn new(type_key: &str) -> (t: Self)
        ensures
            default_type_settings(t, type_key@),
    {
        let (option_count, difficulty): (usize, u8) = if str_eq(type_key, "BmpText") {
            (0, 2)
        } else if str_eq(type_key, "Emoji") {
            (6, 2)
        } else if str_eq(type_key, "Direction") {
            (4, 1)
        } else if str_eq(type_key, "Sequence") {
            (4, 2)
        } else if str_eq(type_key, "WordUnscramble") {
            (0, 2)
        } else if str_eq(type_key, "ImageRotation") {
            (4, 2)
        } else if str_eq(type_key, "Silhouette") {
            (4, 2)
        } else {
            (4, 2)
        };
        CaptchaTypeSettings { type_key: owned(type_key), enabled: true, option_count, difficulty, min_pool_size: 50 }
    }

    /// The default settings of every kind, in the panel's order.
    pub fn all_types() -> (v: Vec<Self>)
        ensures
            v@.len() == captcha_type_keys().len(),
            forall|i: int| 0 <= i < v@.len() ==> default_type_settings(#[trigger] v@[i], captcha_type_keys()[i]),
    {
        let mut v: Vec<CaptchaTypeSettings> = Vec::new();
        v.push(CaptchaTypeSettings::new("BmpText"));
        v.push(CaptchaTypeSettings::new("Emoji"));
        v.push(CaptchaTypeSettings::new("Direction"));
        v.push(CaptchaTypeSettings::new("Sequence"));
        v.push(CaptchaTypeSettings::new("WordUnscramble"));
        v.push(CaptchaTypeSettings::new("ImageRotation"));
        v.push(CaptchaTypeSettings::new("Silhouette"));
        v
    }
}


/// The panel's state as plain values.
pub struct AdminView {
    pub sessions: Map<Seq<char>, SessionInfo>,
    pub nodes: Map<Seq<char>, NodeInfo>,
    pub mirrors: Map<Seq<char>, MirrorInfo>,
    /// Mirror ids in the order they were first recorded.
    pub mirror_ids: Seq<Seq<char>>,
    pub banned: Seq<Seq<char>>,
    /// Tiers forced on sessions.
    pub overrides: Map<Seq<char>, Seq<char>>,
    /// Sessions looking at the CAPTCHA page, with when they were last seen there.
    pub gate_queue: Map<Seq<char>, u64>,
    /// Panel logins, with when they were made.
    pub admin_sessions: Map<Seq<char>, u64>,
    pub total_traffic_bytes: u64,
    pub total_requests: u64,
    /// (time, bytes, node id) of each request.
    pub request_log: Seq<(u64, u64, Seq<char>)>,
    pub captcha_pool_config: CaptchaPoolConfig,
    pub branding: BrandingConfig,
    pub captcha_types: Seq<CaptchaTypeSettings>,
}

/// The views of a request log.
pub open spec fn log_views(l: Seq<(u64, u64, String)>) -> Seq<(u64, u64, Seq<char>)> {
    l.map_values(|e: (u64, u64, String)| (e.0, e.1, e.2@))
}

/// The views of a list of strings.
pub open spec fn string_views(v: Seq<String>) -> Seq<Seq<char>> {
    v.map_values(|s: String| s@)
}

/// State shared by the proxy and its administration panel.
pub struct AdminState {
    sessions: StrMap<SessionInfo>,
    nodes: StrMap<NodeInfo>,
    mirrors: StrMap<MirrorInfo>,
    banned_sessions: Vec<String>,
    tier_overrides: StrMap<String>,
    captcha_pool_config: CaptchaPoolConfig,
    branding_config: BrandingConfig,
    captcha_type_settings: Vec<CaptchaTypeSettings>,
    total_traffic_bytes: u64,
    total_requests: u64,
    request_log: Vec<(u64, u64, String)>,
    gate_queue: StrMap<u64>,
    admin_sessions: StrMap<u64>,
}

impl View for AdminState {
    type V = AdminView;

    closed spec fn view(&self) -> AdminView {
        AdminView {
            sessions: self.sessions.map(),
            nodes: self.nodes.map(),
            mirrors: self.mirrors.map(),
            mirror_ids: self.mirrors.key_seq(),
            banned: string_views(self.banned_sessions@),
            overrides: self.tier_overrides.map().map_values(|v: String| v@),
            gate_queue: self.gate_queue.map(),
            admin_sessions: self.admin_sessions.map(),
            total_traffic_bytes: self.total_traffic_bytes,
            total_requests: self.total_requests,
            request_log: log_views(self.request_log@),
            captcha_pool_config: self.captcha_pool_config,
            branding: self.branding_config,
            captcha_types: self.captcha_type_settings@,
        }
    }
}

/// A session map in which at most the record of `sid` changed, in the way
/// `f` describes; nothing changes when there is no such session.
pub open spec fn sessions_updated(
    a: Map<Seq<char>, SessionInfo>,
    b: Map<Seq<char>, SessionInfo>,
    sid: Seq<char>,
    f: spec_fn(SessionInfo, SessionInfo) -> bool,
) -> bool {
    if a.contains_key(sid) {
        &&& b.contains_key(sid)
        &&& b == a.insert(sid, b[sid])
        &&& f(a[sid], b[sid])
    } else {
        b == a
    }
}

/// A state in which only the record of `sid` changed, in the way `f` describes.
pub open spec fn session_updated(a: AdminView, b: AdminView, sid: Seq<char>, f: spec_fn(SessionInfo, SessionInfo) -> bool) -> bool {
    b == (AdminView { sessions: b.sessions, ..a }) && sessions_updated(a.sessions, b.sessions, sid, f)
}

/// A session record that got one more history line and otherwise differs
/// from the old one only where `changed` says.
pub open spec fn with_line(o: SessionInfo, n: SessionInfo, l: HistoryView) -> bool {
    hist(n) == capped(hist(o).push(l))
}

impl AdminState {
    /// The maps behind the view are well formed.
    pub closed spec fn wf(&self) -> bool {
        &&& self.sessions.wf()
        &&& self.nodes.wf()
        &&& self.mirrors.wf()
        &&& self.tier_overrides.wf()
        &&& self.gate_queue.wf()
        &&& self.admin_sessions.wf()
        &&& log_bytes(log_views(self.request_log@), self.request_log@.len() as int) <= self.total_traffic_bytes
    }

    /// An empty state with the default CAPTCHA kinds.
    pub fn new() -> (st: Self)
        ensures
            st.wf(),
            st@.sessions == Map::<Seq<char>, SessionInfo>::empty(),
            st@.nodes == Map::<Seq<char>, NodeInfo>::empty(),
            st@.mirrors == Map::<Seq<char>, MirrorInfo>::empty(),
            st@.banned == Seq::<Seq<char>>::empty(),
            st@.overrides == Map::<Seq<char>, Seq<char>>::empty(),
            st@.gate_queue == Map::<Seq<char>, u64>::empty(),
            st@.admin_sessions == Map::<Seq<char>, u64>::empty(),
            st@.total_traffic_bytes == 0,
            st@.total_requests == 0,
            st@.request_log == Seq::<(u64, u64, Seq<char>)>::empty(),
            st@.captcha_pool_config == CaptchaPoolConfig::default_spec(),
            st@.captcha_types.len() == captcha_type_keys().len(),
            forall|i: int| 0 <= i < st@.captcha_types.len() ==> default_type_settings(#[trigger] st@.captcha_types[i], captcha_type_keys()[i]),
    {
        let st = AdminState {
            sessions: StrMap::new(),
            nodes: StrMap::new(),
            mirrors: StrMap::new(),
            banned_sessions: Vec::new(),
            tier_overrides: StrMap::new(),
            captcha_pool_config: CaptchaPoolConfig::default(),
            branding_config: BrandingConfig::default(),
            captcha_type_settings: CaptchaTypeSettings::all_types(),
            total_traffic_bytes: 0,
            total_requests: 0,
            request_log: Vec::new(),
            gate_queue: StrMap::new(),
            admin_sessions: StrMap::new(),
        };
        proof {
            assert(string_views(st.banned_sessions@) =~= Seq::<Seq<char>>::empty());
            assert(log_views(st.request_log@) =~= Seq::<(u64, u64, Seq<char>)>::empty());
            assert(st.tier_overrides.map().map_values(|v: String| v@) =~= Map::<Seq<char>, Seq<char>>::empty());
        }
        st
    }

    /// Stores a session's record under its id.
    pub fn update_session(&mut self, info: SessionInfo)
        requires
            old(self).wf(),
        ensures
            final(self).wf(),
            final(self)@ == (AdminView { sessions: old(self)@.sessions.insert(info.session_id@, info), ..old(self)@ }),
    {
        let id = info.session_id.clone();
        self.sessions.insert(id.as_str(), info);
    }

    /// Records a session on its way to the CAPTCHA gateway at `now`, as the
    /// proxy does: a session not seen before gets a fresh record (tier
    /// `tier`, seen through `mirror`); a known one is left as it is.
    pub fn track_gate_visitor_at(&mut self, sid: &str, tier: TrustTier, mirror: &str, now: u64)
        requires
            old(self).wf(),
        ensures
            final(self).wf(),
            old(self)@.sessions.contains_key(sid@) ==> final(self)@ == old(self)@,
            !old(self)@.sessions.contains_key(sid@) ==> {
                &&& final(self)@ == (AdminView {
                    sessions: old(self)@.sessions.insert(sid@, final(self)@.sessions[sid@]),
                    ..old(self)@
                })
                &&& fresh_visitor(final(self)@.sessions[sid@], sid@, tier, now, mirror@)
            },
    {
        let known = match self.sessions.get(sid) {
            Some(_) => true,
            None => false,
        };
        if !known {
            let info = visitor_session_at(sid, tier, now, mirror);
            self.update_session(info);
        }
    }

    /// A copy of a session's record.
    pub fn get_session(&self, id: &str) -> (r: Option<SessionInfo>)
        requires
            self.wf(),
        ensures
            match r {
                Some(s) => self@.sessions.contains_key(id@) && same_session(s, self@.sessions[id@]),
                None => !self@.sessions.contains_key(id@),
            },
    {
        match self.sessions.get(id) {
            Some(s) => Some(copy_session(s)),
            None => None,
        }
    }

    /// Copies of all session records.
    pub fn get_sessions(&self) -> (r: Vec<SessionInfo>)
        requires
            self.wf(),
        ensures
            r@.len() == self@.sessions.len(),
            forall|i: int| 0 <= i < r@.len() ==> same_session(#[trigger] r@[i], self@.sessions[self.session_ids()[i]]),
    {
        let n = self.sessions.len();
        let mut r: Vec<SessionInfo> = Vec::new();
        let mut i: usize = 0;
        while i < n
            invariant
                self.wf(),
                n == self.sessions.size(),
                i <= n,
                r@.len() == i,
                forall|k: int| 0 <= k < i ==> same_session(#[trigger] r@[k], self@.sessions[self.session_ids()[k]]),
            decreases n - i,
        {
            r.push(copy_session(self.sessions.value_at(i)));
            i = i + 1;
        }
        r
    }

    /// The session ids in the order they were first stored.
    pub closed spec fn session_ids(&self) -> Seq<Seq<char>> {
        self.sessions.key_seq()
    }

    /// Forgets a session.
    pub fn delete_session(&mut self, id: &str)
        requires
            old(self).wf(),
        ensures
            final(self).wf(),
            final(self)@ == (AdminView { sessions: old(self)@.sessions.remove(id@), ..old(self)@ }),
    {
        self.sessions.remove(id);
    }
}


/// The record after a page load at `now`.
pub open spec fn page_loaded(o: SessionInfo, n: SessionInfo, path: Seq<char>, method: Seq<char>, status: u16, now: u64) -> bool {
    &&& n == (SessionInfo {
        page_loads: (o.page_loads + 1) as u64,
        last_activity: now,
        browsing_history: n.browsing_history,
        ..o
    })
    &&& with_line(o, n, line(now, HistoryEventType::PageRequest, path, method, status, None))
}

/// The record after an event at `now`.
pub open spec fn event_recorded(o: SessionInfo, n: SessionInfo, l: HistoryView, now: u64) -> bool {
    &&& n == (SessionInfo { last_activity: now, browsing_history: n.browsing_history, ..o })
    &&& with_line(o, n, l)
}

/// The record after one more history line and nothing else.
pub open spec fn line_added(o: SessionInfo, n: SessionInfo, l: HistoryView) -> bool {
    &&& n == (SessionInfo { browsing_history: n.browsing_history, ..o })
    &&& with_line(o, n, l)
}

/// A page load of `sid` at `t` took `a` to `b`.
pub open spec fn page_load_done(a: AdminView, b: AdminView, sid: Seq<char>, path: Seq<char>, method: Seq<char>, status: u16, t: u64) -> bool {
    session_updated(a, b, sid, |o: SessionInfo, n: SessionInfo| page_loaded(o, n, path, method, status, t))
}

/// An event of `sid` at `t` took `a` to `b`.
pub open spec fn event_done(
    a: AdminView,
    b: AdminView,
    sid: Seq<char>,
    event_type: HistoryEventType,
    description: Seq<char>,
    source: Seq<char>,
    reason: Option<Seq<char>>,
    t: u64,
) -> bool {
    session_updated(a, b, sid, |o: SessionInfo, n: SessionInfo| event_recorded(o, n, line(t, event_type, description, source, 0, reason), t))
}

/// An optional string slice as plain values.
pub open spec fn opt_str_view(o: Option<&str>) -> Option<Seq<char>> {
    match o {
        Some(s) => Some(s@),
        None => None,
    }
}

fn entry(timestamp: u64, event_type: HistoryEventType, path: String, method: &str, status_code: u16, reason: Option<String>) -> (e: HistoryEntry)
    ensures
        e.timestamp == timestamp,
        e.event_type == event_type,
        e.path == path,
        e.method@ == method@,
        e.status_code == status_code,
        e.reason == reason,
{
    HistoryEntry { timestamp, event_type, path, method: owned(method), status_code, reason }
}

impl AdminState {
    /// Records a page load of a known session at `now`.
    pub fn record_page_load_at(&mut self, session_id: &str, path: &str, method: &str, status: u16, now: u64)
        requires
            old(self).wf(),
            old(self)@.sessions.contains_key(session_id@) ==> old(self)@.sessions[session_id@].page_loads < u64::MAX,
        ensures
            final(self).wf(),
            session_updated(old(self)@, final(self)@, session_id@,
                |o: SessionInfo, n: SessionInfo| page_loaded(o, n, path@, method@, status, now)),
    {
        let ghost a = self@;
        match self.sessions.remove(session_id) {
            Some(s0) => {
                let mut s = s0;
                s.page_loads = s.page_loads + 1;
                s.last_activity = now;
                push_history(&mut s.browsing_history, entry(now, HistoryEventType::PageRequest, owned(path), method, status, None));
                let ghost sf = s;
                self.sessions.insert(session_id, s);
                proof {
                    assert(self.sessions.map() =~= a.sessions.insert(session_id@, sf));
                    assert(self@ =~= AdminView { sessions: a.sessions.insert(session_id@, sf), ..a });
                }
            },
            None => {
                proof {
                    assert(self.sessions.map() =~= a.sessions);
                    assert(self@ =~= a);
                }
            },
        }
    }

    /// Records a page load of a known session, stamped by the system clock.
    pub fn record_page_load(&mut self, session_id: &str, path: &str, method: &str, status: u16)
        requires
            old(self).wf(),
            old(self)@.sessions.contains_key(session_id@) ==> old(self)@.sessions[session_id@].page_loads < u64::MAX,
        ensures
            final(self).wf(),
            exists|t: u64| #[trigger] page_load_done(old(self)@, final(self)@, session_id@, path@, method@, status, t),
    {
        let t = now();
        self.record_page_load_at(session_id, path, method, status, t);
        proof {
            assert(page_load_done(old(self)@, self@, session_id@, path@, method@, status, t));
        }
    }

    /// Records an event of a known session at `now`.
    pub fn record_session_event_at(
        &mut self,
        session_id: &str,
        event_type: HistoryEventType,
        description: &str,
        source: &str,
        reason: Option<&str>,
        now: u64,
    )
        requires
            old(self).wf(),
        ensures
            final(self).wf(),
            session_updated(old(self)@, final(self)@, session_id@,
                |o: SessionInfo, n: SessionInfo| event_recorded(o, n,
                    line(now, event_type, description@, source@, 0, opt_str_view(reason)), now)),
    {
        let ghost a = self@;
        match self.sessions.remove(session_id) {
            Some(s0) => {
                let mut s = s0;
                s.last_activity = now;
                let r = match reason {
                    Some(x) => Some(owned(x)),
                    None => None,
                };
                push_history(&mut s.browsing_history, entry(now, event_type, owned(description), source, 0, r));
                let ghost sf = s;
                self.sessions.insert(session_id, s);
                proof {
                    assert(self.sessions.map() =~= a.sessions.insert(session_id@, sf));
                    assert(self@ =~= AdminView { sessions: a.sessions.insert(session_id@, sf), ..a });
                }
            },
            None => {
                proof {
                    assert(self.sessions.map() =~= a.sessions);
                    assert(self@ =~= a);
                }
            },
        }
    }

    /// Records an event of a known session, stamped by the system clock.
    pub fn record_session_event(
        &mut self,
        session_id: &str,
        event_type: HistoryEventType,
        description: &str,
        source: &str,
        reason: Option<&str>,
    )
        requires
            old(self).wf(),
        ensures
            final(self).wf(),
            exists|t: u64| #[trigger] event_done(old(self)@, final(self)@, session_id@, event_type, description@, source@, opt_str_view(reason), t),
    {
        let t = now();
        self.record_session_event_at(session_id, event_type, description, source, reason, t);
        proof {
            assert(event_done(old(self)@, self@, session_id@, event_type, description@, source@, opt_str_view(reason), t));
        }
    }

    /// Records a behavioural violation in a known session's history at `now`.
    pub fn record_violation_at(&mut self, session_id: &str, violation_type: &str, details: &str, severity: u8, now: u64)
        requires
            old(self).wf(),
        ensures
            final(self).wf(),
            session_updated(old(self)@, final(self)@, session_id@,
                |o: SessionInfo, n: SessionInfo| line_added(o, n, line(now, HistoryEventType::ViolationDetected,
                    "[SEV-"@ + decimal(severity as nat) + "] "@ + violation_type@, "System"@, 0, Some(details@)))),
    {
        let ghost a = self@;
        match self.sessions.remove(session_id) {
            Some(s0) => {
                let mut s = s0;
                let sev = u64_to_decimal(severity as u64);
                let mut path = owned("[SEV-");
                path.append(sev.as_str());
                path.append("] ");
                path.append(violation_type);
                push_history(&mut s.browsing_history, entry(now, HistoryEventType::ViolationDetected, path, "System", 0, Some(owned(details))));
                let ghost sf = s;
                self.sessions.insert(session_id, s);
                proof {
                    reveal_strlit("System");
                    assert(self.sessions.map() =~= a.sessions.insert(session_id@, sf));
                    assert(self@ =~= AdminView { sessions: a.sessions.insert(session_id@, sf), ..a });
                }
            },
            None => {
                proof {
                    assert(self.sessions.map() =~= a.sessions);
                    assert(self@ =~= a);
                }
            },
        }
    }

    /// Records a passed CAPTCHA in a known session's history at `now`.
    pub fn record_captcha_verified_at(&mut self, session_id: &str, now: u64)
        requires
            old(self).wf(),
        ensures
            final(self).wf(),
            session_updated(old(self)@, final(self)@, session_id@,
                |o: SessionInfo, n: SessionInfo| line_added(o, n, line(now, HistoryEventType::CaptchaVerified,
                    "Captcha verification passed"@, "Gate"@, 0, None))),
    {
        let ghost a = self@;
        match self.sessions.remove(session_id) {
            Some(s0) => {
                let mut s = s0;
                push_history(&mut s.browsing_history, entry(now, HistoryEventType::CaptchaVerified, owned("Captcha verification passed"), "Gate", 0, None));
                let ghost sf = s;
                self.sessions.insert(session_id, s);
                proof {
                    assert(self.sessions.map() =~= a.sessions.insert(session_id@, sf));
                    assert(self@ =~= AdminView { sessions: a.sessions.insert(session_id@, sf), ..a });
                }
            },
            None => {
                proof {
                    assert(self.sessions.map() =~= a.sessions);
                    assert(self@ =~= a);
                }
            },
        }
    }
}


/// The record after its tier is set by an administrator at `now`.
pub open spec fn tier_set(o: SessionInfo, n: SessionInfo, tier: Seq<char>, now: u64) -> bool {
    &&& n == (SessionInfo { trust_tier: n.trust_tier, browsing_history: n.browsing_history, ..o })
    &&& n.trust_tier@ == tier
    &&& with_line(o, n, line(now, HistoryEventType::AdminTierChange, "Tier changed to "@ + tier, "Admin"@, 0,
        Some("Changed from "@ + o.trust_tier@)))
}

/// The record after the system demotes it to `tier` at `now`.
pub open spec fn tier_set_auto(o: SessionInfo, n: SessionInfo, tier: Seq<char>, reason: Seq<char>, now: u64) -> bool {
    &&& n == (SessionInfo { trust_tier: n.trust_tier, browsing_history: n.browsing_history, ..o })
    &&& n.trust_tier@ == tier
    &&& with_line(o, n, line(now, HistoryEventType::AutoDemotion, "Auto-demoted to "@ + tier, "System"@, 0,
        Some(reason + " (was: "@ + o.trust_tier@ + ")"@)))
}

/// The record after a ban at `now`.
pub open spec fn banned_record(o: SessionInfo, n: SessionInfo, now: u64) -> bool {
    &&& n == (SessionInfo { is_banned: true, trust_tier: n.trust_tier, browsing_history: n.browsing_history, ..o })
    &&& n.trust_tier@ == "Burned"@
    &&& with_line(o, n, line(now, HistoryEventType::SessionBanned, "Session BANNED"@, "Admin"@, 0,
        Some("Manually banned by administrator"@)))
}

/// The record after a ban is lifted at `now`.
pub open spec fn unbanned_record(o: SessionInfo, n: SessionInfo, now: u64) -> bool {
    &&& n == (SessionInfo { is_banned: false, browsing_history: n.browsing_history, ..o })
    &&& with_line(o, n, line(now, HistoryEventType::SessionUnbanned, "Session UNBANNED"@, "Admin"@, 0,
        Some("Ban lifted by administrator"@)))
}

/// The history line of a demotion.
pub open spec fn demotion_line(count: u32, max: u32, reason: Seq<char>, now: u64) -> HistoryView {
    line(now, HistoryEventType::AutoDemotion, "Demotion #"@ + decimal(count as nat) + "/"@ + decimal(max as nat), "System"@, 0, Some(reason))
}

/// The history line of a kill.
pub open spec fn kill_line(max: u32, now: u64) -> HistoryView {
    line(now, HistoryEventType::SessionKilled, "Session KILLED - Repeat Offender"@, "System"@, 0,
        Some("Exceeded max demotions limit ("@ + decimal(max as nat) + ")"@))
}

/// The record after one more demotion at `now`: the count goes up, and a
/// session whose count exceeds `max` is killed.
pub open spec fn demoted(o: SessionInfo, n: SessionInfo, max: u32, reason: Seq<char>, now: u64) -> bool {
    let c = (o.demotion_count + 1) as u32;
    let h1 = capped(hist(o).push(demotion_line(c, max, reason, now)));
    if c > max {
        &&& n == (SessionInfo { demotion_count: c, is_killed: true, trust_tier: n.trust_tier, browsing_history: n.browsing_history, ..o })
        &&& n.trust_tier@ == "Killed"@
        &&& hist(n) == capped(h1.push(kill_line(max, now)))
    } else {
        &&& n == (SessionInfo { demotion_count: c, browsing_history: n.browsing_history, ..o })
        &&& hist(n) == h1
    }
}

/// The overrides as plain values after one is set.
pub open spec fn override_set(a: AdminView, sid: Seq<char>, tier: Seq<char>) -> Map<Seq<char>, Seq<char>> {
    a.overrides.insert(sid, tier)
}

impl AdminState {
    proof fn lemma_override_insert(&self, m0: Map<Seq<char>, String>, k: Seq<char>, v: String)
        requires
            self.tier_overrides.map() == m0.insert(k, v),
        ensures
            self.tier_overrides.map().map_values(|x: String| x@) == m0.map_values(|x: String| x@).insert(k, v@),
    {
        assert(self.tier_overrides.map().map_values(|x: String| x@) =~= m0.map_values(|x: String| x@).insert(k, v@));
    }

    /// An administrator sets a session's tier at `now`; the tier is also
    /// stored as an override for later requests, session or not.
    pub fn set_session_tier_at(&mut self, session_id: &str, tier: &str, now: u64)
        requires
            old(self).wf(),
        ensures
            final(self).wf(),
            final(self)@ == (AdminView {
                sessions: final(self)@.sessions,
                overrides: override_set(old(self)@, session_id@, tier@),
                ..old(self)@
            }),
            sessions_updated(old(self)@.sessions, final(self)@.sessions, session_id@,
                |o: SessionInfo, n: SessionInfo| tier_set(o, n, tier@, now)),
    {
        let ghost a = self@;
        let ghost om = self.tier_overrides.map();
        match self.sessions.remove(session_id) {
            Some(s0) => {
                let mut s = s0;
                let reason = concat_str("Changed from ", s.trust_tier.as_str());
                s.trust_tier = owned(tier);
                push_history(&mut s.browsing_history, entry(now, HistoryEventType::AdminTierChange, concat_str("Tier changed to ", tier), "Admin", 0, Some(reason)));
                let ghost sf = s;
                self.sessions.insert(session_id, s);
                proof {
                    assert(self.sessions.map() =~= a.sessions.insert(session_id@, sf));
                }
            },
            None => {
                proof {
                    assert(self.sessions.map() =~= a.sessions);
                }
            },
        }
        let t = owned(tier);
        let ghost tv = t;
        self.tier_overrides.insert(session_id, t);
        proof {
            self.lemma_override_insert(om, session_id@, tv);
            assert(self@ =~= AdminView { sessions: self@.sessions, overrides: override_set(a, session_id@, tier@), ..a });
        }
    }

    /// The system demotes a session to `tier` at `now`; the tier is also
    /// stored as an override for later requests.
    pub fn set_session_tier_auto_at(&mut self, session_id: &str, tier: &str, reason: &str, now: u64)
        requires
            old(self).wf(),
        ensures
            final(self).wf(),
            final(self)@ == (AdminView {
                sessions: final(self)@.sessions,
                overrides: override_set(old(self)@, session_id@, tier@),
                ..old(self)@
            }),
            sessions_updated(old(self)@.sessions, final(self)@.sessions, session_id@,
                |o: SessionInfo, n: SessionInfo| tier_set_auto(o, n, tier@, reason@, now)),
    {
        let ghost a = self@;
        let ghost om = self.tier_overrides.map();
        match self.sessions.remove(session_id) {
            Some(s0) => {
                let mut s = s0;
                let mut why = concat_str(reason, " (was: ");
                why.append(s.trust_tier.as_str());
                why.append(")");
                s.trust_tier = owned(tier);
                push_history(&mut s.browsing_history, entry(now, HistoryEventType::AutoDemotion, concat_str("Auto-demoted to ", tier), "System", 0, Some(why)));
                let ghost sf = s;
                self.sessions.insert(session_id, s);
                proof {
                    assert(self.sessions.map() =~= a.sessions.insert(session_id@, sf));
                }
            },
            None => {
                proof {
                    assert(self.sessions.map() =~= a.sessions);
                }
            },
        }
        let t = owned(tier);
        let ghost tv = t;
        self.tier_overrides.insert(session_id, t);
        proof {
            self.lemma_override_insert(om, session_id@, tv);
            assert(self@ =~= AdminView { sessions: self@.sessions, overrides: override_set(a, session_id@, tier@), ..a });
        }
    }

    /// The tier forced on a session, if any.
    pub fn get_tier_override(&self, session_id: &str) -> (r: Option<String>)
        requires
            self.wf(),
        ensures
            match r {
                Some(t) => self@.overrides.contains_key(session_id@) && t@ == self@.overrides[session_id@],
                None => !self@.overrides.contains_key(session_id@),
            },
    {
        match self.tier_overrides.get(session_id) {
            Some(t) => Some(t.clone()),
            None => None,
        }
    }

    /// Lifts the tier forced on a session.
    pub fn clear_tier_override(&mut self, session_id: &str)
        requires
            old(self).wf(),
        ensures
            final(self).wf(),
            final(self)@ == (AdminView { overrides: old(self)@.overrides.remove(session_id@), ..old(self)@ }),
    {
        let ghost om = self.tier_overrides.map();
        let ghost a = self@;
        self.tier_overrides.remove(session_id);
        proof {
            assert(self.tier_overrides.map().map_values(|x: String| x@) =~= om.map_values(|x: String| x@).remove(session_id@));
            assert(self@ =~= AdminView { overrides: a.overrides.remove(session_id@), ..a });
        }
    }

    /// Whether a session is on the ban list.
    pub fn is_banned(&self, session_id: &str) -> (r: bool)
        ensures
            r == self@.banned.contains(session_id@),
    {
        let mut i: usize = 0;
        while i < self.banned_sessions.len()
            invariant
                i <= self.banned_sessions@.len(),
                forall|k: int| 0 <= k < i ==> string_views(self.banned_sessions@)[k] != session_id@,
            decreases self.banned_sessions@.len() - i,
        {
            if str_eq(self.banned_sessions[i].as_str(), session_id) {
                proof {
                    assert(self@.banned[i as int] == session_id@);
                }
                return true;
            }
            i = i + 1;
        }
        proof {
            if self@.banned.contains(session_id@) {
                let k = choose|k: int| 0 <= k < self@.banned.len() && self@.banned[k] == session_id@;
                assert(string_views(self.banned_sessions@)[k] != session_id@);
            }
        }
        false
    }

    /// Bans a session at `now`: its record is marked and the id joins the ban list.
    pub fn ban_session_at(&mut self, session_id: &str, now: u64)
        requires
            old(self).wf(),
        ensures
            final(self).wf(),
            final(self)@ == (AdminView {
                sessions: final(self)@.sessions,
                banned: if old(self)@.banned.contains(session_id@) {
                    old(self)@.banned
                } else {
                    old(self)@.banned.push(session_id@)
                },
                ..old(self)@
            }),
            sessions_updated(old(self)@.sessions, final(self)@.sessions, session_id@,
                |o: SessionInfo, n: SessionInfo| banned_record(o, n, now)),
    {
        let ghost a = self@;
        match self.sessions.remove(session_id) {
            Some(s0) => {
                let mut s = s0;
                s.is_banned = true;
                s.trust_tier = owned("Burned");
                push_history(&mut s.browsing_history, entry(now, HistoryEventType::SessionBanned, owned("Session BANNED"), "Admin", 0, Some(owned("Manually banned by administrator"))));
                let ghost sf = s;
                self.sessions.insert(session_id, s);
                proof {
                    assert(self.sessions.map() =~= a.sessions.insert(session_id@, sf));
                }
            },
            None => {
                proof {
                    assert(self.sessions.map() =~= a.sessions);
                }
            },
        }
        let already = self.is_banned(session_id);
        if !already {
            let ghost b0 = self.banned_sessions@;
            self.banned_sessions.push(owned(session_id));
            proof {
                assert(string_views(self.banned_sessions@) =~= string_views(b0).push(session_id@));
            }
        }
        proof {
            assert(self@ =~= AdminView {
                sessions: self@.sessions,
                banned: if a.banned.contains(session_id@) { a.banned } else { a.banned.push(session_id@) },
                ..a
            });
        }
    }

    /// Lifts a session's ban at `now`: its record is marked and the id leaves the ban list.
    pub fn unban_session_at(&mut self, session_id: &str, now: u64)
        requires
            old(self).wf(),
        ensures
            final(self).wf(),
            final(self)@ == (AdminView {
                sessions: final(self)@.sessions,
                banned: old(self)@.banned.filter(|b: Seq<char>| b != session_id@),
                ..old(self)@
            }),
            sessions_updated(old(self)@.sessions, final(self)@.sessions, session_id@,
                |o: SessionInfo, n: SessionInfo| unbanned_record(o, n, now)),
    {
        let ghost a = self@;
        match self.sessions.remove(session_id) {
            Some(s0) => {
                let mut s = s0;
                s.is_banned = false;
                push_history(&mut s.browsing_history, entry(now, HistoryEventType::SessionUnbanned, owned("Session UNBANNED"), "Admin", 0, Some(owned("Ban lifted by administrator"))));
                let ghost sf = s;
                self.sessions.insert(session_id, s);
                proof {
                    assert(self.sessions.map() =~= a.sessions.insert(session_id@, sf));
                }
            },
            None => {
                proof {
                    assert(self.sessions.map() =~= a.sessions);
                }
            },
        }
        let ghost bs = string_views(self.banned_sessions@);
        let mut kept: Vec<String> = Vec::new();
        let mut i: usize = 0;
        proof {
            reveal_with_fuel(Seq::filter, 1);
            assert(bs.take(0) =~= Seq::<Seq<char>>::empty());
            assert(string_views(kept@) =~= Seq::<Seq<char>>::empty());
        }
        while i < self.banned_sessions.len()
            invariant
                bs == string_views(self.banned_sessions@),
                i <= self.banned_sessions@.len(),
                string_views(kept@) == bs.take(i as int).filter(|b: Seq<char>| b != session_id@),
            decreases self.banned_sessions@.len() - i,
        {
            proof {
                reveal_with_fuel(Seq::filter, 1);
                assert(bs.take(i + 1).drop_last() =~= bs.take(i as int));
                assert(bs.take(i + 1).last() == self.banned_sessions@[i as int]@);
            }
            if !str_eq(self.banned_sessions[i].as_str(), session_id) {
                let ghost k0 = kept@;
                kept.push(self.banned_sessions[i].clone());
                proof {
                    assert(string_views(kept@) =~= string_views(k0).push(self.banned_sessions@[i as int]@));
                }
            }
            i = i + 1;
        }
        proof {
            assert(bs.take(bs.len() as int) =~= bs);
        }
        self.banned_sessions = kept;
        proof {
            assert(self@ =~= AdminView {
                sessions: self@.sessions,
                banned: a.banned.filter(|b: Seq<char>| b != session_id@),
                ..a
            });
        }
    }

    /// Counts a demotion of a session at `now` and kills it once the count
    /// exceeds `max_demotions`; true when this demotion killed it.
    pub fn record_demotion_with_reason_at(&mut self, session_id: &str, max_demotions: u32, reason: &str, now: u64) -> (killed: bool)
        requires
            old(self).wf(),
            old(self)@.sessions.contains_key(session_id@) ==> old(self)@.sessions[session_id@].demotion_count < u32::MAX,
        ensures
            final(self).wf(),
            session_updated(old(self)@, final(self)@, session_id@,
                |o: SessionInfo, n: SessionInfo| demoted(o, n, max_demotions, reason@, now)),
            killed == (old(self)@.sessions.contains_key(session_id@)
                && old(self)@.sessions[session_id@].demotion_count + 1 > max_demotions),
    {
        let ghost a = self@;
        match self.sessions.remove(session_id) {
            Some(s0) => {
                let mut s = s0;
                s.demotion_count = s.demotion_count + 1;
                let c = u64_to_decimal(s.demotion_count as u64);
                let m = u64_to_decimal(max_demotions as u64);
                let mut path = concat_str("Demotion #", c.as_str());
                path.append("/");
                path.append(m.as_str());
                push_history(&mut s.browsing_history, entry(now, HistoryEventType::AutoDemotion, path, "System", 0, Some(owned(reason))));
                let killed = s.demotion_count > max_demotions;
                if killed {
                    s.is_killed = true;
                    s.trust_tier = owned("Killed");
                    let mut why = concat_str("Exceeded max demotions limit (", m.as_str());
                    why.append(")");
                    push_history(&mut s.browsing_history, entry(now, HistoryEventType::SessionKilled, owned("Session KILLED - Repeat Offender"), "System", 0, Some(why)));
                }
                let ghost sf = s;
                self.sessions.insert(session_id, s);
                proof {
                    assert(self.sessions.map() =~= a.sessions.insert(session_id@, sf));
                    assert(self@ =~= AdminView { sessions: a.sessions.insert(session_id@, sf), ..a });
                }
                killed
            },
            None => {
                proof {
                    assert(self.sessions.map() =~= a.sessions);
                    assert(self@ =~= a);
                }
                false
            },
        }
    }

    /// Counts a demotion for too many behavioural violations at `now`.
    pub fn record_demotion_at(&mut self, session_id: &str, max_demotions: u32, now: u64) -> (killed: bool)
        requires
            old(self).wf(),
            old(self)@.sessions.contains_key(session_id@) ==> old(self)@.sessions[session_id@].demotion_count < u32::MAX,
        ensures
            final(self).wf(),
            session_updated(old(self)@, final(self)@, session_id@,
                |o: SessionInfo, n: SessionInfo| demoted(o, n, max_demotions, "Behavioral violations exceeded threshold"@, now)),
            killed == (old(self)@.sessions.contains_key(session_id@)
                && old(self)@.sessions[session_id@].demotion_count + 1 > max_demotions),
    {
        self.record_demotion_with_reason_at(session_id, max_demotions, "Behavioral violations exceeded threshold", now)
    }

    /// Whether a session has been killed.
    pub fn is_killed(&self, session_id: &str) -> (r: bool)
        requires
            self.wf(),
        ensures
            r == (self@.sessions.contains_key(session_id@) && self@.sessions[session_id@].is_killed),
    {
        match self.sessions.get(session_id) {
            Some(s) => s.is_killed,
            None => false,
        }
    }

    /// How often a session has been demoted.
    pub fn get_demotion_count(&self, session_id: &str) -> (r: u32)
        requires
            self.wf(),
        ensures
            r == if self@.sessions.contains_key(session_id@) { self@.sessions[session_id@].demotion_count } else { 0 },
    {
        match self.sessions.get(session_id) {
            Some(s) => s.demotion_count,
            None => 0,
        }
    }
}


/// Seconds a CAPTCHA-page visitor counts as waiting.
pub const GATE_QUEUE_WINDOW_SECS: u64 = 300;

/// Seconds a panel login stays valid.
pub const ADMIN_SESSION_SECS: u64 = 86400;

/// Seconds of request log kept.
pub const REQUEST_LOG_SECS: u64 = 604800;

/// `a - b`, or zero when `b` is larger.
pub open spec fn sat_sub(a: u64, b: u64) -> u64 {
    if a >= b { (a - b) as u64 } else { 0 }
}

impl AdminState {
    /// Records which node serves a known session.
    pub fn set_session_node(&mut self, session_id: &str, node_id: &str)
        requires
            old(self).wf(),
        ensures
            final(self).wf(),
            session_updated(old(self)@, final(self)@, session_id@, |o: SessionInfo, n: SessionInfo|
                n == (SessionInfo { current_node: n.current_node, ..o }) && n.current_node@ == node_id@),
    {
        let ghost a = self@;
        match self.sessions.remove(session_id) {
            Some(s0) => {
                let mut s = s0;
                s.current_node = owned(node_id);
                let ghost sf = s;
                self.sessions.insert(session_id, s);
                proof {
                    assert(self.sessions.map() =~= a.sessions.insert(session_id@, sf));
                    assert(self@ =~= AdminView { sessions: a.sessions.insert(session_id@, sf), ..a });
                }
            },
            None => {
                proof {
                    assert(self.sessions.map() =~= a.sessions);
                    assert(self@ =~= a);
                }
            },
        }
    }

    /// Records which onion address a known session came through.
    pub fn set_session_mirror(&mut self, session_id: &str, mirror: &str)
        requires
            old(self).wf(),
        ensures
            final(self).wf(),
            session_updated(old(self)@, final(self)@, session_id@, |o: SessionInfo, n: SessionInfo|
                n == (SessionInfo { current_mirror: n.current_mirror, ..o }) && n.current_mirror@ == mirror@),
    {
        let ghost a = self@;
        match self.sessions.remove(session_id) {
            Some(s0) => {
                let mut s = s0;
                s.current_mirror = owned(mirror);
                let ghost sf = s;
                self.sessions.insert(session_id, s);
                proof {
                    assert(self.sessions.map() =~= a.sessions.insert(session_id@, sf));
                    assert(self@ =~= AdminView { sessions: a.sessions.insert(session_id@, sf), ..a });
                }
            },
            None => {
                proof {
                    assert(self.sessions.map() =~= a.sessions);
                    assert(self@ =~= a);
                }
            },
        }
    }

    /// Adds transferred bytes to a known session.
    pub fn record_session_traffic(&mut self, session_id: &str, bytes: u64)
        requires
            old(self).wf(),
            old(self)@.sessions.contains_key(session_id@) ==> old(self)@.sessions[session_id@].total_bytes + bytes <= u64::MAX,
        ensures
            final(self).wf(),
            session_updated(old(self)@, final(self)@, session_id@, |o: SessionInfo, n: SessionInfo|
                n == (SessionInfo { total_bytes: (o.total_bytes + bytes) as u64, ..o })),
    {
        let ghost a = self@;
        match self.sessions.remove(session_id) {
            Some(s0) => {
                let mut s = s0;
                s.total_bytes = s.total_bytes + bytes;
                let ghost sf = s;
                self.sessions.insert(session_id, s);
                proof {
                    assert(self.sessions.map() =~= a.sessions.insert(session_id@, sf));
                    assert(self@ =~= AdminView { sessions: a.sessions.insert(session_id@, sf), ..a });
                }
            },
            None => {
                proof {
                    assert(self.sessions.map() =~= a.sessions);
                    assert(self@ =~= a);
                }
            },
        }
    }

    /// Stores a node's record under its id.
    pub fn update_node(&mut self, info: NodeInfo)
        requires
            old(self).wf(),
        ensures
            final(self).wf(),
            final(self)@ == (AdminView { nodes: old(self)@.nodes.insert(info.id@, info), ..old(self)@ }),
    {
        let id = info.id.clone();
        self.nodes.insert(id.as_str(), info);
    }

    /// A copy of a node's record.
    pub fn get_node(&self, id: &str) -> (r: Option<NodeInfo>)
        requires
            self.wf(),
        ensures
            match r {
                Some(n) => self@.nodes.contains_key(id@) && n == self@.nodes[id@],
                None => !self@.nodes.contains_key(id@),
            },
    {
        match self.nodes.get(id) {
            Some(n) => Some(copy_node_info(n)),
            None => None,
        }
    }

    /// The node ids in the order they were first stored.
    pub closed spec fn node_ids(&self) -> Seq<Seq<char>> {
        self.nodes.key_seq()
    }

    /// Copies of all node records, in the order they were first stored.
    pub fn get_nodes(&self) -> (r: Vec<NodeInfo>)
        requires
            self.wf(),
        ensures
            r@.len() == self@.nodes.len(),
            r@.len() == self.node_ids().len(),
            forall|i: int| 0 <= i < r@.len() ==> #[trigger] r@[i] == self@.nodes[self.node_ids()[i]],
    {
        let n = self.nodes.len();
        let mut r: Vec<NodeInfo> = Vec::new();
        let mut i: usize = 0;
        while i < n
            invariant
                self.wf(),
                n == self.nodes.size(),
                i <= n,
                r@.len() == i,
                forall|k: int| 0 <= k < i ==> #[trigger] r@[k] == self@.nodes[self.node_ids()[k]],
            decreases n - i,
        {
            r.push(copy_node_info(self.nodes.value_at(i)));
            i = i + 1;
        }
        r
    }

    /// Changes a known node's mode.
    pub fn set_node_mode(&mut self, id: &str, mode: &str)
        requires
            old(self).wf(),
        ensures
            final(self).wf(),
            old(self)@.nodes.contains_key(id@) ==> final(self)@ == (AdminView {
                nodes: old(self)@.nodes.insert(id@, final(self)@.nodes[id@]),
                ..old(self)@
            }) && final(self)@.nodes[id@] == (NodeInfo { mode: final(self)@.nodes[id@].mode, ..old(self)@.nodes[id@] })
                && final(self)@.nodes[id@].mode@ == mode@,
            !old(self)@.nodes.contains_key(id@) ==> final(self)@ == old(self)@,
    {
        let ghost a = self@;
        match self.nodes.remove(id) {
            Some(n0) => {
                let mut n = n0;
                n.mode = owned(mode);
                let ghost nf = n;
                self.nodes.insert(id, n);
                proof {
                    assert(self.nodes.map() =~= a.nodes.insert(id@, nf));
                    assert(self@ =~= AdminView { nodes: a.nodes.insert(id@, nf), ..a });
                }
            },
            None => {
                proof {
                    assert(self.nodes.map() =~= a.nodes);
                    assert(self@ =~= a);
                }
            },
        }
    }

    /// Forgets a node.
    pub fn remove_node(&mut self, id: &str)
        requires
            old(self).wf(),
        ensures
            final(self).wf(),
            final(self)@ == (AdminView { nodes: old(self)@.nodes.remove(id@), ..old(self)@ }),
    {
        self.nodes.remove(id);
    }

    /// Records a request of `bytes` bytes to a node at `now`: the node's
    /// counters and the totals go up, the request joins the log, and log
    /// entries older than a week are dropped.
    pub fn record_node_request_at(&mut self, node_id: &str, bytes: u64, now: u64)
        requires
            old(self).wf(),
            old(self)@.total_requests < u64::MAX,
            old(self)@.total_traffic_bytes + bytes <= u64::MAX,
            old(self)@.nodes.contains_key(node_id@) ==> old(self)@.nodes[node_id@].total_requests < u64::MAX,
        ensures
            final(self).wf(),
            final(self)@ == (AdminView {
                nodes: final(self)@.nodes,
                total_requests: (old(self)@.total_requests + 1) as u64,
                total_traffic_bytes: (old(self)@.total_traffic_bytes + bytes) as u64,
                request_log: old(self)@.request_log.push((now, bytes, node_id@)).filter(
                    |e: (u64, u64, Seq<char>)| e.0 >= sat_sub(now, REQUEST_LOG_SECS)),
                ..old(self)@
            }),
            old(self)@.nodes.contains_key(node_id@) ==> final(self)@.nodes == old(self)@.nodes.insert(node_id@, NodeInfo {
                total_requests: (old(self)@.nodes[node_id@].total_requests + 1) as u64,
                active_connections: if old(self)@.nodes[node_id@].active_connections < usize::MAX {
                    (old(self)@.nodes[node_id@].active_connections + 1) as usize
                } else {
                    usize::MAX
                },
                ..old(self)@.nodes[node_id@]
            }),
            !old(self)@.nodes.contains_key(node_id@) ==> final(self)@.nodes == old(self)@.nodes,
    {
        let ghost a = self@;
        match self.nodes.remove(node_id) {
            Some(n0) => {
                let mut n = n0;
                n.total_requests = n.total_requests + 1;
                n.active_connections = n.active_connections.saturating_add(1);
                let ghost nf = n;
                self.nodes.insert(node_id, n);
                proof {
                    assert(self.nodes.map() =~= a.nodes.insert(node_id@, nf));
                }
            },
            None => {
                proof {
                    assert(self.nodes.map() =~= a.nodes);
                }
            },
        }
        self.total_requests = self.total_requests + 1;
        self.total_traffic_bytes = self.total_traffic_bytes + bytes;
        self.request_log.push((now, bytes, owned(node_id)));
        let cutoff = now.saturating_sub(REQUEST_LOG_SECS);
        let ghost full = log_views(self.request_log@);
        proof {
            assert(full =~= a.request_log.push((now, bytes, node_id@)));
        }
        let mut kept: Vec<(u64, u64, String)> = Vec::new();
        let mut i: usize = 0;
        proof {
            reveal_with_fuel(Seq::filter, 1);
            assert(full.take(0) =~= Seq::<(u64, u64, Seq<char>)>::empty());
            assert(log_views(kept@) =~= Seq::<(u64, u64, Seq<char>)>::empty());
        }
        while i < self.request_log.len()
            invariant
                full == log_views(self.request_log@),
                i <= self.request_log@.len(),
                log_views(kept@) == full.take(i as int).filter(|e: (u64, u64, Seq<char>)| e.0 >= cutoff),
            decreases self.request_log@.len() - i,
        {
            proof {
                reveal_with_fuel(Seq::filter, 1);
                assert(full.take(i + 1).drop_last() =~= full.take(i as int));
                assert(full.take(i + 1).last() == full[i as int]);
            }
            let e = &self.request_log[i];
            if e.0 >= cutoff {
                let ghost k0 = kept@;
                kept.push((e.0, e.1, e.2.clone()));
                proof {
                    assert(log_views(kept@) =~= log_views(k0).push(full[i as int]));
                }
            }
            i = i + 1;
        }
        proof {
            assert(full.take(full.len() as int) =~= full);
        }
        self.request_log = kept;
        proof {
            let keep = |e: (u64, u64, Seq<char>)| e.0 >= cutoff;
            lemma_log_bytes_push(a.request_log, (now, bytes, node_id@));
            lemma_log_bytes_filter(full, keep);
            assert(log_views(self.request_log@) == full.filter(keep));
            assert(self@ =~= AdminView {
                nodes: self@.nodes,
                total_requests: (a.total_requests + 1) as u64,
                total_traffic_bytes: (a.total_traffic_bytes + bytes) as u64,
                request_log: a.request_log.push((now, bytes, node_id@)).filter(
                    |e: (u64, u64, Seq<char>)| e.0 >= sat_sub(now, REQUEST_LOG_SECS)),
                ..a
            });
        }
    }

    /// Adds response bytes to the total and to the log at `now`.
    pub fn record_response_traffic_at(&mut self, bytes: u64, now: u64)
        requires
            old(self).wf(),
            old(self)@.total_traffic_bytes + bytes <= u64::MAX,
        ensures
            final(self).wf(),
            final(self)@ == (AdminView {
                total_traffic_bytes: (old(self)@.total_traffic_bytes + bytes) as u64,
                request_log: old(self)@.request_log.push((now, bytes, "_response"@)),
                ..old(self)@
            }),
    {
        let ghost a = self@;
        self.total_traffic_bytes = self.total_traffic_bytes + bytes;
        self.request_log.push((now, bytes, owned("_response")));
        proof {
            assert(log_views(self.request_log@) =~= a.request_log.push((now, bytes, "_response"@)));
            lemma_log_bytes_push(a.request_log, (now, bytes, "_response"@));
            assert(self@ =~= AdminView {
                total_traffic_bytes: (a.total_traffic_bytes + bytes) as u64,
                request_log: a.request_log.push((now, bytes, "_response"@)),
                ..a
            });
        }
    }

    /// A node gives a connection back (never below zero).
    pub fn release_node_connection(&mut self, node_id: &str)
        requires
            old(self).wf(),
        ensures
            final(self).wf(),
            old(self)@.nodes.contains_key(node_id@) ==> final(self)@ == (AdminView {
                nodes: old(self)@.nodes.insert(node_id@, NodeInfo {
                    active_connections: if old(self)@.nodes[node_id@].active_connections > 0 {
                        (old(self)@.nodes[node_id@].active_connections - 1) as usize
                    } else {
                        0
                    },
                    ..old(self)@.nodes[node_id@]
                }),
                ..old(self)@
            }),
            !old(self)@.nodes.contains_key(node_id@) ==> final(self)@ == old(self)@,
    {
        let ghost a = self@;
        match self.nodes.remove(node_id) {
            Some(n0) => {
                let mut n = n0;
                n.active_connections = n.active_connections.saturating_sub(1);
                let ghost nf = n;
                self.nodes.insert(node_id, n);
                proof {
                    assert(self.nodes.map() =~= a.nodes.insert(node_id@, nf));
                    assert(self@ =~= AdminView { nodes: a.nodes.insert(node_id@, nf), ..a });
                }
            },
            None => {
                proof {
                    assert(self.nodes.map() =~= a.nodes);
                    assert(self@ =~= a);
                }
            },
        }
    }

    /// A session opens the CAPTCHA page at `now`; visitors unseen for five
    /// minutes leave the queue.
    pub fn enter_gate_queue_at(&mut self, session_id: &str, now: u64)
        requires
            old(self).wf(),
        ensures
            final(self).wf(),
            final(self)@ == (AdminView {
                gate_queue: crate::strmap::at_least(old(self)@.gate_queue.insert(session_id@, now), sat_sub(now, GATE_QUEUE_WINDOW_SECS)),
                ..old(self)@
            }),
    {
        let ghost a = self@;
        self.gate_queue.insert(session_id, now);
        self.gate_queue.retain_at_least(now.saturating_sub(GATE_QUEUE_WINDOW_SECS));
        proof {
            assert(self@ =~= AdminView {
                gate_queue: crate::strmap::at_least(a.gate_queue.insert(session_id@, now), sat_sub(now, GATE_QUEUE_WINDOW_SECS)),
                ..a
            });
        }
    }

    /// A session leaves the CAPTCHA page.
    pub fn exit_gate_queue(&mut self, session_id: &str)
        requires
            old(self).wf(),
        ensures
            final(self).wf(),
            final(self)@ == (AdminView { gate_queue: old(self)@.gate_queue.remove(session_id@), ..old(self)@ }),
    {
        self.gate_queue.remove(session_id);
    }

    /// The number of sessions on the CAPTCHA page at `now`, after dropping those
    /// unseen for five minutes.
    pub fn get_gate_queue_count_at(&mut self, now: u64) -> (n: usize)
        requires
            old(self).wf(),
        ensures
            final(self).wf(),
            final(self)@ == (AdminView {
                gate_queue: crate::strmap::at_least(old(self)@.gate_queue, sat_sub(now, GATE_QUEUE_WINDOW_SECS)),
                ..old(self)@
            }),
            n == final(self)@.gate_queue.len(),
    {
        self.gate_queue.retain_at_least(now.saturating_sub(GATE_QUEUE_WINDOW_SECS));
        self.gate_queue.len()
    }

    /// Logs a panel session in at `now`; logins older than a day are dropped.
    pub fn create_admin_session_at(&mut self, session_id: &str, now: u64)
        requires
            old(self).wf(),
        ensures
            final(self).wf(),
            final(self)@ == (AdminView {
                admin_sessions: crate::strmap::at_least(old(self)@.admin_sessions.insert(session_id@, now), sat_sub(now, ADMIN_SESSION_SECS)),
                ..old(self)@
            }),
    {
        let ghost a = self@;
        self.admin_sessions.insert(session_id, now);
        self.admin_sessions.retain_at_least(now.saturating_sub(ADMIN_SESSION_SECS));
        proof {
            assert(self@ =~= AdminView {
                admin_sessions: crate::strmap::at_least(a.admin_sessions.insert(session_id@, now), sat_sub(now, ADMIN_SESSION_SECS)),
                ..a
            });
        }
    }

    /// Whether a panel login is valid at `now`: made within the last day.
    pub fn is_admin_session_valid_at(&self, session_id: &str, now: u64) -> (r: bool)
        requires
            self.wf(),
        ensures
            r == (self@.admin_sessions.contains_key(session_id@)
                && self@.admin_sessions[session_id@] >= sat_sub(now, ADMIN_SESSION_SECS)),
    {
        match self.admin_sessions.get(session_id) {
            Some(t) => *t >= now.saturating_sub(ADMIN_SESSION_SECS),
            None => false,
        }
    }

    /// Logs a panel session out.
    pub fn remove_admin_session(&mut self, session_id: &str)
        requires
            old(self).wf(),
        ensures
            final(self).wf(),
            final(self)@ == (AdminView { admin_sessions: old(self)@.admin_sessions.remove(session_id@), ..old(self)@ }),
    {
        self.admin_sessions.remove(session_id);
    }
}


/// The first mirror id, in order, whose entry has the onion address.
pub open spec fn first_mirror_with(ids: Seq<Seq<char>>, m: Map<Seq<char>, MirrorInfo>, onion: Seq<char>, k: int) -> Option<int>
    decreases ids.len() - k,
{
    if k < 0 || k >= ids.len() {
        None
    } else if m[ids[k]].onion_address@ == onion {
        Some(k)
    } else {
        first_mirror_with(ids, m, onion, k + 1)
    }
}

/// The id given to a mirror first seen at an onion address.
pub open spec fn generated_mirror_id(onion: Seq<char>) -> Seq<char> {
    "mirror-"@ + crate::gateway::head(onion, 8)
}

impl AdminState {
    /// Stores a mirror's record under its id.
    pub fn update_mirror(&mut self, info: MirrorInfo)
        requires
            old(self).wf(),
        ensures
            final(self).wf(),
            final(self)@.mirrors == old(self)@.mirrors.insert(info.id@, info),
            final(self)@ == (AdminView { mirrors: final(self)@.mirrors, mirror_ids: final(self)@.mirror_ids, ..old(self)@ }),
    {
        let id = info.id.clone();
        self.mirrors.insert(id.as_str(), info);
    }

    /// Copies of all mirror records, in the order they were first stored.
    pub fn get_mirrors(&self) -> (r: Vec<MirrorInfo>)
        requires
            self.wf(),
        ensures
            r@.len() == self@.mirror_ids.len(),
            forall|i: int| 0 <= i < r@.len() ==> #[trigger] r@[i] == self@.mirrors[self@.mirror_ids[i]],
    {
        let n = self.mirrors.len();
        let mut r: Vec<MirrorInfo> = Vec::new();
        let mut i: usize = 0;
        while i < n
            invariant
                self.wf(),
                n == self.mirrors.size(),
                i <= n,
                r@.len() == i,
                forall|k: int| 0 <= k < i ==> #[trigger] r@[k] == self@.mirrors[self@.mirror_ids[k]],
            decreases n - i,
        {
            r.push(copy_mirror_info(self.mirrors.value_at(i)));
            i = i + 1;
        }
        r
    }

    fn mirror_position(&self, onion_address: &str) -> (r: Option<usize>)
        requires
            self.wf(),
        ensures
            match r {
                Some(i) => first_mirror_with(self@.mirror_ids, self@.mirrors, onion_address@, 0) == Some(i as int)
                    && i < self@.mirror_ids.len(),
                None => first_mirror_with(self@.mirror_ids, self@.mirrors, onion_address@, 0) is None,
            },
    {
        let n = self.mirrors.len();
        let mut i: usize = 0;
        while i < n
            invariant
                self.wf(),
                n == self.mirrors.size(),
                n == self@.mirror_ids.len(),
                i <= n,
                first_mirror_with(self@.mirror_ids, self@.mirrors, onion_address@, 0)
                    == first_mirror_with(self@.mirror_ids, self@.mirrors, onion_address@, i as int),
            decreases n - i,
        {
            if str_eq(self.mirrors.value_at(i).onion_address.as_str(), onion_address) {
                return Some(i);
            }
            i = i + 1;
        }
        None
    }

    /// The first stored mirror record with the onion address.
    pub fn get_mirror_by_onion(&self, onion_address: &str) -> (r: Option<MirrorInfo>)
        requires
            self.wf(),
        ensures
            match first_mirror_with(self@.mirror_ids, self@.mirrors, onion_address@, 0) {
                Some(k) => r == Some(self@.mirrors[self@.mirror_ids[k]]),
                None => r is None,
            },
    {
        match self.mirror_position(onion_address) {
            Some(i) => Some(copy_mirror_info(self.mirrors.value_at(i))),
            None => None,
        }
    }

    /// Counts a request through the mirror at `onion_address`; a mirror not
    /// seen before gets an entry named after the address's first eight
    /// characters, created at `now` with one request.
    pub fn record_mirror_request_at(&mut self, onion_address: &str, now: u64)
        requires
            old(self).wf(),
            first_mirror_with(old(self)@.mirror_ids, old(self)@.mirrors, onion_address@, 0) matches Some(k)
                ==> old(self)@.mirrors[old(self)@.mirror_ids[k]].total_requests < u64::MAX,
        ensures
            final(self).wf(),
            final(self)@ == (AdminView { mirrors: final(self)@.mirrors, mirror_ids: final(self)@.mirror_ids, ..old(self)@ }),
            match first_mirror_with(old(self)@.mirror_ids, old(self)@.mirrors, onion_address@, 0) {
                Some(k) => final(self)@.mirrors == old(self)@.mirrors.insert(old(self)@.mirror_ids[k], MirrorInfo {
                    total_requests: (old(self)@.mirrors[old(self)@.mirror_ids[k]].total_requests + 1) as u64,
                    ..old(self)@.mirrors[old(self)@.mirror_ids[k]]
                }),
                None => final(self)@.mirrors.dom() == old(self)@.mirrors.dom().insert(generated_mirror_id(onion_address@))
                    && final(self)@.mirrors == old(self)@.mirrors.insert(generated_mirror_id(onion_address@),
                        final(self)@.mirrors[generated_mirror_id(onion_address@)])
                    && ({
                        let e = final(self)@.mirrors[generated_mirror_id(onion_address@)];
                        &&& e.id@ == generated_mirror_id(onion_address@)
                        &&& e.onion_address@ == onion_address@
                        &&& e.status@ == "active"@
                        &&& e.created_at == now
                        &&& e.total_requests == 1
                    }),
            },
    {
        let ghost a = self@;
        match self.mirror_position(onion_address) {
            Some(i) => {
                let id = self.mirrors.key_at(i).clone();
                proof {
                    self.mirrors.lemma_key_in_map(i as int);
                }
                let m0 = self.mirrors.remove(id.as_str());
                match m0 {
                    Some(m1) => {
                        let mut m = m1;
                        m.total_requests = m.total_requests + 1;
                        let ghost mf = m;
                        self.mirrors.insert(id.as_str(), m);
                        proof {
                            assert(self.mirrors.map() =~= a.mirrors.insert(id@, mf));
                        }
                    },
                    None => {},
                }
            },
            None => {
                let head = crate::gateway::head_string(onion_address, 8);
                let id = concat_str("mirror-", head.as_str());
                let info = MirrorInfo {
                    id: id.clone(),
                    onion_address: owned(onion_address),
                    status: owned("active"),
                    created_at: now,
                    total_requests: 1,
                };
                self.mirrors.insert(id.as_str(), info);
                proof {
                    assert(self.mirrors.map().dom() =~= a.mirrors.dom().insert(id@));
                }
            },
        }
    }

    /// Forgets a mirror.
    pub fn remove_mirror(&mut self, id: &str)
        requires
            old(self).wf(),
        ensures
            final(self).wf(),
            final(self)@.mirrors == old(self)@.mirrors.remove(id@),
            final(self)@ == (AdminView { mirrors: final(self)@.mirrors, mirror_ids: final(self)@.mirror_ids, ..old(self)@ }),
    {
        self.mirrors.remove(id);
    }
}


/// What `str::parse::<u16>` gives.
pub open spec fn parse_u16_spec(s: Seq<char>) -> Option<u16> {
    match parse_usize_spec(s) {
        Some(n) => if n <= 65535 { Some(n as u16) } else { None },
        None => None,
    }
}

/// The port a node listens on: the part of its address after the last ':'.
pub open spec fn port_of(n: NodeInfo) -> Option<u16> {
    parse_u16_spec(split_on(n.bind_addr@, ':').last())
}

/// The highest port among the nodes of a pool.
pub open spec fn max_port(ns: Seq<NodeInfo>, mode: Seq<char>) -> Option<u16>
    decreases ns.len(),
{
    if ns.len() == 0 {
        None
    } else {
        let rest = max_port(ns.drop_last(), mode);
        let n = ns.last();
        if n.mode@ == mode && port_of(n) is Some {
            let p = port_of(n)->0;
            match rest {
                Some(q) => Some(if q >= p { q } else { p }),
                None => Some(p),
            }
        } else {
            rest
        }
    }
}

/// The number of nodes of a pool.
pub open spec fn pool_size(ns: Seq<NodeInfo>, mode: Seq<char>) -> nat {
    ns.filter(|n: NodeInfo| n.mode@ == mode).len()
}

/// The first port of a pool: 9100 for healthy nodes, 8081 for the others.
pub open spec fn base_port(mode: Seq<char>) -> u16 {
    if mode == "healthy"@ { 9100 } else { 8081 }
}

/// The request and violation counts of sessions, added up.
pub open spec fn sum_requests(ss: Seq<SessionInfo>) -> nat
    decreases ss.len(),
{
    if ss.len() == 0 { 0 } else { sum_requests(ss.drop_last()) + ss.last().request_count as nat }
}

/// The violation counts of sessions, added up.
pub open spec fn sum_violations(ss: Seq<SessionInfo>) -> nat
    decreases ss.len(),
{
    if ss.len() == 0 { 0 } else { sum_violations(ss.drop_last()) + ss.last().violation_count as nat }
}

/// Whether a session was active in the five minutes before `now`.
pub open spec fn recently_active(s: SessionInfo, now: u64) -> bool {
    s.last_activity <= now && now - s.last_activity < 300
}

/// The panel's headline numbers.
#[derive(Debug, Clone, Copy, PartialEq, Eq, Structural)]
pub struct AdminStats {
    pub total_sessions: usize,
    pub active_sessions: usize,
    pub banned_sessions: usize,
    pub healthy_nodes: usize,
    pub threat_nodes: usize,
    pub active_mirrors: usize,
    pub total_requests: u64,
    pub total_violations: u64,
}

/// The panel after `bytes` response bytes were recorded at `now`.
pub open spec fn traffic_recorded(a: AdminView, bytes: u64, now: u64) -> AdminView {
    AdminView {
        total_traffic_bytes: (a.total_traffic_bytes + bytes) as u64,
        request_log: a.request_log.push((now, bytes, "_response"@)),
        ..a
    }
}

/// Whether panel login `sid` is still valid at `now`: made within the last day.
pub open spec fn login_fresh(v: AdminView, sid: Seq<char>, now: u64) -> bool {
    v.admin_sessions.contains_key(sid) && v.admin_sessions[sid] >= sat_sub(now, ADMIN_SESSION_SECS)
}

impl AdminState {
    /// The node records in the order they were first stored.
    pub closed spec fn node_records(&self) -> Seq<NodeInfo> {
        Seq::new(self.nodes.key_seq().len(), |i: int| self.nodes.map()[self.nodes.key_seq()[i]])
    }

    /// The session records in the order they were first stored.
    pub closed spec fn session_records(&self) -> Seq<SessionInfo> {
        Seq::new(self.sessions.key_seq().len(), |i: int| self.sessions.map()[self.sessions.key_seq()[i]])
    }

    /// The number of nodes of a pool.
    pub fn pool_count(&self, mode: &str) -> (n: usize)
        requires
            self.wf(),
        ensures
            n == pool_size(self.node_records(), mode@),
    {
        let ghost ns = self.node_records();
        let n = self.nodes.len();
        let mut count: usize = 0;
        let mut i: usize = 0;
        proof {
            reveal_with_fuel(Seq::filter, 1);
            assert(ns.take(0) =~= Seq::<NodeInfo>::empty());
        }
        while i < n
            invariant
                self.wf(),
                ns == self.node_records(),
                n == ns.len(),
                i <= n,
                count <= i,
                count == pool_size(ns.take(i as int), mode@),
            decreases n - i,
        {
            let node = self.nodes.value_at(i);
            proof {
                reveal_with_fuel(Seq::filter, 1);
                assert(ns.take(i + 1).drop_last() =~= ns.take(i as int));
                assert(ns.take(i + 1).last() == ns[i as int]);
                assert(ns[i as int] == *node);
            }
            if str_eq(node.mode.as_str(), mode) {
                count = count + 1;
            }
            i = i + 1;
        }
        proof {
            assert(ns.take(n as int) =~= ns);
        }
        count
    }

    /// The ids of the sessions whose current node is `node_id`, in the order
    /// the sessions were first stored.
    pub fn session_ids_on_node(&self, node_id: &str) -> (r: Vec<String>)
        requires
            self.wf(),
        ensures
            string_views(r@) == self.session_records().filter(|s: SessionInfo| s.current_node@ == node_id@)
                .map_values(|s: SessionInfo| s.session_id@),
    {
        let ghost ss = self.session_records();
        let n = self.sessions.len();
        let mut r: Vec<String> = Vec::new();
        let mut i: usize = 0;
        proof {
            reveal_with_fuel(Seq::filter, 1);
            assert(ss.take(0) =~= Seq::<SessionInfo>::empty());
            assert(string_views(r@) =~= Seq::<Seq<char>>::empty());
        }
        while i < n
            invariant
                self.wf(),
                ss == self.session_records(),
                n == ss.len(),
                i <= n,
                string_views(r@) == ss.take(i as int).filter(|s: SessionInfo| s.current_node@ == node_id@)
                    .map_values(|s: SessionInfo| s.session_id@),
            decreases n - i,
        {
            let sess = self.sessions.value_at(i);
            let ghost before = r@;
            proof {
                reveal_with_fuel(Seq::filter, 1);
                assert(ss.take(i + 1).drop_last() =~= ss.take(i as int));
                assert(ss.take(i + 1).last() == ss[i as int]);
                assert(ss[i as int] == *sess);
            }
            if str_eq(sess.current_node.as_str(), node_id) {
                let id = sess.session_id.clone();
                r.push(id);
                proof {
                    let f = ss.take(i as int).filter(|s: SessionInfo| s.current_node@ == node_id@);
                    assert(ss.take(i + 1).filter(|s: SessionInfo| s.current_node@ == node_id@) == f.push(*sess));
                    assert(string_views(r@) =~= string_views(before).push(id@));
                    assert(f.push(*sess).map_values(|s: SessionInfo| s.session_id@)
                        =~= f.map_values(|s: SessionInfo| s.session_id@).push(sess.session_id@));
                }
            }
            i = i + 1;
        }
        proof {
            assert(ss.take(n as int) =~= ss);
        }
        r
    }

    /// The name and address suggested for the next node of a pool: the pool
    /// name with its size, and the port after the highest one in use.
    pub fn get_next_node_suggestion(&self, mode: &str) -> (r: (String, String))
        requires
            self.wf(),
            max_port(self.node_records(), mode@).unwrap_or((base_port(mode@) - 1) as u16) < 65535,
        ensures
            r.0@ == mode@ + "-"@ + decimal(pool_size(self.node_records(), mode@)),
            r.1@ == "127.0.0.1:"@ + decimal((max_port(self.node_records(), mode@).unwrap_or((base_port(mode@) - 1) as u16) + 1) as nat),
    {
        let ghost ns = self.node_records();
        let n = self.nodes.len();
        let mut count: usize = 0;
        let mut best: Option<u16> = None;
        let mut i: usize = 0;
        proof {
            reveal_with_fuel(Seq::filter, 1);
            assert(ns.take(0) =~= Seq::<NodeInfo>::empty());
        }
        while i < n
            invariant
                self.wf(),
                ns == self.node_records(),
                n == ns.len(),
                i <= n,
                count <= i,
                count == pool_size(ns.take(i as int), mode@),
                best == max_port(ns.take(i as int), mode@),
            decreases n - i,
        {
            let node = self.nodes.value_at(i);
            proof {
                reveal_with_fuel(Seq::filter, 1);
                assert(ns.take(i + 1).drop_last() =~= ns.take(i as int));
                assert(ns.take(i + 1).last() == ns[i as int]);
                assert(ns[i as int] == *node);
            }
            if str_eq(node.mode.as_str(), mode) {
                count = count + 1;
                let pieces = split_char(node.bind_addr.as_str(), ':');
                proof {
                    lemma_split_on_nonempty(node.bind_addr@, ':');
                }
                let last = &pieces[pieces.len() - 1];
                match parse_usize(last.as_str()) {
                    Some(p) => {
                        if p <= 65535 {
                            let p16 = p as u16;
                            best = match best {
                                Some(q) => Some(if q >= p16 { q } else { p16 }),
                                None => Some(p16),
                            };
                        }
                    },
                    None => {},
                }
            }
            i = i + 1;
        }
        proof {
            assert(ns.take(n as int) =~= ns);
        }
        let base: u16 = if str_eq(mode, "healthy") { 9100 } else { 8081 };
        let top: u16 = match best {
            Some(q) => q,
            None => base - 1,
        };
        let mut name = concat_str(mode, "-");
        name.append(u64_to_decimal(count as u64).as_str());
        let port = concat_str("127.0.0.1:", u64_to_decimal((top + 1) as u64).as_str());
        (name, port)
    }

    /// The headline numbers at `now`.
    pub fn get_stats_at(&self, now: u64) -> (st: AdminStats)
        requires
            self.wf(),
            sum_requests(self.session_records()) <= u64::MAX,
            sum_violations(self.session_records()) <= u64::MAX,
        ensures
            st.total_sessions == self@.sessions.len(),
            st.active_sessions == self.session_records().filter(|s: SessionInfo| recently_active(s, now)).len(),
            st.banned_sessions == self@.banned.len(),
            st.healthy_nodes == pool_size(self.node_records(), "healthy"@),
            st.threat_nodes == pool_size(self.node_records(), "threat"@),
            st.active_mirrors == self@.mirrors.len(),
            st.total_requests == sum_requests(self.session_records()),
            st.total_violations == sum_violations(self.session_records()),
    {
        let ghost ss = self.session_records();
        let ghost ns = self.node_records();
        let total_sessions = self.sessions.len();
        let mut active: usize = 0;
        let mut reqs: u64 = 0;
        let mut viols: u64 = 0;
        let mut i: usize = 0;
        proof {
            reveal_with_fuel(Seq::filter, 1);
            assert(ss.take(0) =~= Seq::<SessionInfo>::empty());
        }
        while i < total_sessions
            invariant
                self.wf(),
                ss == self.session_records(),
                total_sessions == ss.len(),
                i <= total_sessions,
                active <= i,
                active == ss.take(i as int).filter(|s: SessionInfo| recently_active(s, now)).len(),
                reqs == sum_requests(ss.take(i as int)),
                viols == sum_violations(ss.take(i as int)),
                sum_requests(ss) <= u64::MAX,
                sum_violations(ss) <= u64::MAX,
            decreases total_sessions - i,
        {
            let s = self.sessions.value_at(i);
            proof {
                reveal_with_fuel(Seq::filter, 1);
                assert(ss.take(i + 1).drop_last() =~= ss.take(i as int));
                assert(ss.take(i + 1).last() == ss[i as int]);
                assert(ss[i as int] == *s);
                lemma_sums_grow(ss, i as int + 1);
            }
            if s.last_activity <= now && now - s.last_activity < 300 {
                active = active + 1;
            }
            reqs = reqs + s.request_count;
            viols = viols + s.violation_count as u64;
            i = i + 1;
        }
        proof {
            assert(ss.take(total_sessions as int) =~= ss);
        }
        let nn = self.nodes.len();
        let mut healthy: usize = 0;
        let mut threat: usize = 0;
        let mut j: usize = 0;
        proof {
            reveal_with_fuel(Seq::filter, 1);
            assert(ns.take(0) =~= Seq::<NodeInfo>::empty());
        }
        while j < nn
            invariant
                self.wf(),
                ns == self.node_records(),
                nn == ns.len(),
                j <= nn,
                healthy <= j,
                threat <= j,
                healthy == pool_size(ns.take(j as int), "healthy"@),
                threat == pool_size(ns.take(j as int), "threat"@),
            decreases nn - j,
        {
            let node = self.nodes.value_at(j);
            proof {
                reveal_with_fuel(Seq::filter, 1);
                assert(ns.take(j + 1).drop_last() =~= ns.take(j as int));
                assert(ns.take(j + 1).last() == ns[j as int]);
                assert(ns[j as int] == *node);
            }
            if str_eq(node.mode.as_str(), "healthy") {
                healthy = healthy + 1;
            }
            if str_eq(node.mode.as_str(), "threat") {
                threat = threat + 1;
            }
            j = j + 1;
        }
        proof {
            assert(ns.take(nn as int) =~= ns);
        }
        AdminStats {
            total_sessions,
            active_sessions: active,
            banned_sessions: self.banned_sessions.len(),
            healthy_nodes: healthy,
            threat_nodes: threat,
            active_mirrors: self.mirrors.len(),
            total_requests: reqs,
            total_violations: viols,
        }
    }
}

proof fn lemma_sums_grow(ss: Seq<SessionInfo>, k: int)
    requires
        0 <= k <= ss.len(),
    ensures
        sum_requests(ss.take(k)) <= sum_requests(ss),
        sum_violations(ss.take(k)) <= sum_violations(ss),
    decreases ss.len() - k,
{
    if k < ss.len() {
        lemma_sums_grow(ss, k + 1);
        assert(ss.take(k + 1).drop_last() =~= ss.take(k));
    } else {
        assert(ss.take(k) =~= ss);
    }
}


/// A difficulty brought into the range 1 to 3.
pub open spec fn clamp_difficulty(d: u8) -> u8 {
    if d < 1 { 1 } else if d > 3 { 3 } else { d }
}

/// The first kind setting, in order, with the given name.
pub open spec fn first_type(ts: Seq<CaptchaTypeSettings>, name: Seq<char>, k: int) -> Option<int>
    decreases ts.len() - k,
{
    if k < 0 || k >= ts.len() {
        None
    } else if ts[k].type_key@ == name {
        Some(k)
    } else {
        first_type(ts, name, k + 1)
    }
}

impl AdminState {
    /// The CAPTCHA pool settings.
    pub fn get_captcha_pool_config(&self) -> (c: CaptchaPoolConfig)
        ensures
            c == self@.captcha_pool_config,
    {
        self.captcha_pool_config
    }

    /// Replaces the CAPTCHA pool settings.
    pub fn update_captcha_pool_config(&mut self, config: CaptchaPoolConfig)
        ensures
            final(self)@ == (AdminView { captcha_pool_config: config, ..old(self)@ }),
    {
        self.captcha_pool_config = config;
    }

    /// A copy of the branding settings.
    pub fn get_branding_config(&self) -> (c: BrandingConfig)
        ensures
            c == self@.branding,
    {
        copy_branding(&self.branding_config)
    }

    /// Replaces the branding settings.
    pub fn update_branding_config(&mut self, config: BrandingConfig)
        ensures
            final(self)@ == (AdminView { branding: config, ..old(self)@ }),
    {
        self.branding_config = config;
    }

    /// Copies of the settings of every CAPTCHA kind, in order.
    pub fn get_captcha_type_settings(&self) -> (r: Vec<CaptchaTypeSettings>)
        ensures
            r@ == self@.captcha_types,
    {
        let mut r: Vec<CaptchaTypeSettings> = Vec::new();
        let mut i: usize = 0;
        while i < self.captcha_type_settings.len()
            invariant
                i <= self.captcha_type_settings@.len(),
                r@ == self.captcha_type_settings@.take(i as int),
            decreases self.captcha_type_settings@.len() - i,
        {
            r.push(copy_type_settings(&self.captcha_type_settings[i]));
            proof {
                assert(r@ =~= self.captcha_type_settings@.take(i + 1));
            }
            i = i + 1;
        }
        proof {
            assert(self.captcha_type_settings@.take(self.captcha_type_settings@.len() as int) =~= self.captcha_type_settings@);
        }
        r
    }

    /// Changes the settings of the first kind with the given name; the
    /// difficulty is brought into the range 1 to 3. Unknown names change nothing.
    pub fn update_captcha_type_setting(&mut self, type_key: &str, enabled: bool, option_count: usize, difficulty: u8, min_pool_size: usize)
        ensures
            match first_type(old(self)@.captcha_types, type_key@, 0) {
                Some(k) => final(self)@ == (AdminView {
                    captcha_types: old(self)@.captcha_types.update(k, CaptchaTypeSettings {
                        enabled,
                        option_count,
                        difficulty: clamp_difficulty(difficulty),
                        min_pool_size,
                        ..old(self)@.captcha_types[k]
                    }),
                    ..old(self)@
                }),
                None => final(self)@ == old(self)@,
            },
    {
        let ghost a = self@;
        let mut i: usize = 0;
        while i < self.captcha_type_settings.len()
            invariant
                self@ == a,
                a == old(self)@,
                i <= self.captcha_type_settings@.len(),
                first_type(a.captcha_types, type_key@, 0) == first_type(a.captcha_types, type_key@, i as int),
            decreases self.captcha_type_settings@.len() - i,
        {
            if str_eq(self.captcha_type_settings[i].type_key.as_str(), type_key) {
                proof {
                    assert(a.captcha_types[i as int].type_key@ == type_key@);
                    assert(first_type(a.captcha_types, type_key@, i as int) == Some(i as int));
                }
                let old_t = self.captcha_type_settings.remove(i);
                let d: u8 = if difficulty < 1 { 1 } else if difficulty > 3 { 3 } else { difficulty };
                let t = CaptchaTypeSettings { type_key: old_t.type_key, enabled, option_count, difficulty: d, min_pool_size };
                let ghost tv = t;
                self.captcha_type_settings.insert(i, t);
                proof {
                    assert(old_t == a.captcha_types[i as int]);
                    assert(d == clamp_difficulty(difficulty));
                    assert(tv == (CaptchaTypeSettings {
                        enabled,
                        option_count,
                        difficulty: clamp_difficulty(difficulty),
                        min_pool_size,
                        ..a.captcha_types[i as int]
                    }));
                    assert(self.captcha_type_settings@ =~= a.captcha_types.update(i as int, tv));
                    assert(self@ =~= AdminView { captcha_types: a.captcha_types.update(i as int, tv), ..a });
                    assert(a == old(self)@);
                    assert(first_type(old(self)@.captcha_types, type_key@, 0) == Some(i as int));
                    assert(self@ == (AdminView {
                        captcha_types: old(self)@.captcha_types.update(i as int, CaptchaTypeSettings {
                            enabled,
                            option_count,
                            difficulty: clamp_difficulty(difficulty),
                            min_pool_size,
                            ..old(self)@.captcha_types[i as int]
                        }),
                        ..old(self)@
                    }));
                }
                return;
            }
            i = i + 1;
        }
    }
}

/// A history never grows past its limit: appending to a history of at most
/// the limit gives a history of at most the limit, ending with the new line.
pub proof fn law_history_stays_capped(h: Seq<HistoryView>, l: HistoryView)
    requires
        h.len() <= HISTORY_LIMIT,
    ensures
        capped(h.push(l)).len() <= HISTORY_LIMIT,
        capped(h.push(l)).last() == l,
{
}

/// A demotion kills the session exactly when its count exceeds the maximum;
/// the count only grows, and a killed session is marked and named "Killed".
pub proof fn law_demotion_kills_past_limit(o: SessionInfo, n: SessionInfo, max: u32, reason: Seq<char>, now: u64)
    requires
        o.demotion_count < u32::MAX,
        demoted(o, n, max, reason, now),
    ensures
        n.demotion_count == o.demotion_count + 1,
        n.is_killed == (o.is_killed || o.demotion_count + 1 > max),
        o.demotion_count + 1 > max ==> n.trust_tier@ == "Killed"@,
        o.demotion_count + 1 <= max ==> n.trust_tier == o.trust_tier,
{
}

/// A panel login made at `t` is valid at every time up to a day later and at
/// no time after that.
pub proof fn law_admin_login_lasts_a_day(t: u64, now: u64)
    requires
        t <= now,
    ensures
        (t >= sat_sub(now, ADMIN_SESSION_SECS)) == (now - t <= ADMIN_SESSION_SECS),
{
}


impl AdminState {
    /// An administrator sets a session's tier, stamped by the system clock.
    pub fn set_session_tier(&mut self, session_id: &str, tier: &str)
        requires
            old(self).wf(),
        ensures
            final(self).wf(),
            final(self)@ == (AdminView {
                sessions: final(self)@.sessions,
                overrides: override_set(old(self)@, session_id@, tier@),
                ..old(self)@
            }),
            sessions_updated(old(self)@.sessions, final(self)@.sessions, session_id@,
                |o: SessionInfo, n: SessionInfo| exists|t: u64| #[trigger] tier_set(o, n, tier@, t)),
    {
        let t = now();
        self.set_session_tier_at(session_id, tier, t);
        proof {
            if old(self)@.sessions.contains_key(session_id@) {
                assert(tier_set(old(self)@.sessions[session_id@], self@.sessions[session_id@], tier@, t));
            }
        }
    }

    /// The system demotes a session to `tier`, stamped by the system clock.
    pub fn set_session_tier_auto(&mut self, session_id: &str, tier: &str, reason: &str)
        requires
            old(self).wf(),
        ensures
            final(self).wf(),
            final(self)@ == (AdminView {
                sessions: final(self)@.sessions,
                overrides: override_set(old(self)@, session_id@, tier@),
                ..old(self)@
            }),
            sessions_updated(old(self)@.sessions, final(self)@.sessions, session_id@,
                |o: SessionInfo, n: SessionInfo| exists|t: u64| #[trigger] tier_set_auto(o, n, tier@, reason@, t)),
    {
        let t = now();
        self.set_session_tier_auto_at(session_id, tier, reason, t);
        proof {
            if old(self)@.sessions.contains_key(session_id@) {
                assert(tier_set_auto(old(self)@.sessions[session_id@], self@.sessions[session_id@], tier@, reason@, t));
            }
        }
    }

    /// Bans a session, stamped by the system clock.
    pub fn ban_session(&mut self, session_id: &str)
        requires
            old(self).wf(),
        ensures
            final(self).wf(),
            final(self)@ == (AdminView {
                sessions: final(self)@.sessions,
                banned: if old(self)@.banned.contains(session_id@) {
                    old(self)@.banned
                } else {
                    old(self)@.banned.push(session_id@)
                },
                ..old(self)@
            }),
            sessions_updated(old(self)@.sessions, final(self)@.sessions, session_id@,
                |o: SessionInfo, n: SessionInfo| exists|t: u64| #[trigger] banned_record(o, n, t)),
    {
        let t = now();
        self.ban_session_at(session_id, t);
        proof {
            if old(self)@.sessions.contains_key(session_id@) {
                assert(banned_record(old(self)@.sessions[session_id@], self@.sessions[session_id@], t));
            }
        }
    }

    /// Lifts a session's ban, stamped by the system clock.
    pub fn unban_session(&mut self, session_id: &str)
        requires
            old(self).wf(),
        ensures
            final(self).wf(),
            final(self)@ == (AdminView {
                sessions: final(self)@.sessions,
                banned: old(self)@.banned.filter(|b: Seq<char>| b != session_id@),
                ..old(self)@
            }),
            sessions_updated(old(self)@.sessions, final(self)@.sessions, session_id@,
                |o: SessionInfo, n: SessionInfo| exists|t: u64| #[trigger] unbanned_record(o, n, t)),
    {
        let t = now();
        self.unban_session_at(session_id, t);
        proof {
            if old(self)@.sessions.contains_key(session_id@) {
                assert(unbanned_record(old(self)@.sessions[session_id@], self@.sessions[session_id@], t));
            }
        }
    }

    /// Counts a demotion with a reason, stamped by the system clock; true
    /// when this demotion killed the session.
    pub fn record_demotion_with_reason(&mut self, session_id: &str, max_demotions: u32, reason: &str) -> (killed: bool)
        requires
            old(self).wf(),
            old(self)@.sessions.contains_key(session_id@) ==> old(self)@.sessions[session_id@].demotion_count < u32::MAX,
        ensures
            final(self).wf(),
            session_updated(old(self)@, final(self)@, session_id@,
                |o: SessionInfo, n: SessionInfo| exists|t: u64| #[trigger] demoted(o, n, max_demotions, reason@, t)),
            killed == (old(self)@.sessions.contains_key(session_id@)
                && old(self)@.sessions[session_id@].demotion_count + 1 > max_demotions),
    {
        let t = now();
        let killed = self.record_demotion_with_reason_at(session_id, max_demotions, reason, t);
        proof {
            if old(self)@.sessions.contains_key(session_id@) {
                assert(demoted(old(self)@.sessions[session_id@], self@.sessions[session_id@], max_demotions, reason@, t));
            }
        }
        killed
    }

    /// Counts a demotion for too many behavioural violations, stamped by the
    /// system clock; true when this demotion killed the session.
    pub fn record_demotion(&mut self, session_id: &str, max_demotions: u32) -> (killed: bool)
        requires
            old(self).wf(),
            old(self)@.sessions.contains_key(session_id@) ==> old(self)@.sessions[session_id@].demotion_count < u32::MAX,
        ensures
            final(self).wf(),
            session_updated(old(self)@, final(self)@, session_id@,
                |o: SessionInfo, n: SessionInfo| exists|t: u64| #[trigger] demoted(o, n, max_demotions, "Behavioral violations exceeded threshold"@, t)),
            killed == (old(self)@.sessions.contains_key(session_id@)
                && old(self)@.sessions[session_id@].demotion_count + 1 > max_demotions),
    {
        self.record_demotion_with_reason(session_id, max_demotions, "Behavioral violations exceeded threshold")
    }

    /// Records a behavioural violation, stamped by the system clock.
    pub fn record_violation(&mut self, session_id: &str, violation_type: &str, details: &str, severity: u8)
        requires
            old(self).wf(),
        ensures
            final(self).wf(),
            session_updated(old(self)@, final(self)@, session_id@,
                |o: SessionInfo, n: SessionInfo| exists|t: u64| #[trigger] line_added(o, n, line(t, HistoryEventType::ViolationDetected,
                    "[SEV-"@ + decimal(severity as nat) + "] "@ + violation_type@, "System"@, 0, Some(details@)))),
    {
        let t = now();
        self.record_violation_at(session_id, violation_type, details, severity, t);
        proof {
            if old(self)@.sessions.contains_key(session_id@) {
                assert(line_added(old(self)@.sessions[session_id@], self@.sessions[session_id@], line(t, HistoryEventType::ViolationDetected,
                    "[SEV-"@ + decimal(severity as nat) + "] "@ + violation_type@, "System"@, 0, Some(details@))));
            }
        }
    }

    /// Records a passed CAPTCHA, stamped by the system clock.
    pub fn record_captcha_verified(&mut self, session_id: &str)
        requires
            old(self).wf(),
        ensures
            final(self).wf(),
            session_updated(old(self)@, final(self)@, session_id@,
                |o: SessionInfo, n: SessionInfo| exists|t: u64| #[trigger] line_added(o, n, line(t, HistoryEventType::CaptchaVerified,
                    "Captcha verification passed"@, "Gate"@, 0, None))),
    {
        let t = now();
        self.record_captcha_verified_at(session_id, t);
        proof {
            if old(self)@.sessions.contains_key(session_id@) {
                assert(line_added(old(self)@.sessions[session_id@], self@.sessions[session_id@], line(t, HistoryEventType::CaptchaVerified,
                    "Captcha verification passed"@, "Gate"@, 0, None)));
            }
        }
    }

    /// Records a request to a node, stamped by the system clock.
    pub fn record_node_request(&mut self, node_id: &str, bytes: u64)
        requires
            old(self).wf(),
            old(self)@.total_requests < u64::MAX,
            old(self)@.total_traffic_bytes + bytes <= u64::MAX,
            old(self)@.nodes.contains_key(node_id@) ==> old(self)@.nodes[node_id@].total_requests < u64::MAX,
        ensures
            final(self).wf(),
            final(self)@.total_requests == old(self)@.total_requests + 1,
            final(self)@.total_traffic_bytes == old(self)@.total_traffic_bytes + bytes,
            final(self)@.sessions == old(self)@.sessions,
            old(self)@.nodes.contains_key(node_id@) ==> final(self)@.nodes[node_id@].total_requests
                == old(self)@.nodes[node_id@].total_requests + 1,
    {
        let t = now();
        self.record_node_request_at(node_id, bytes, t);
    }

    /// Adds response bytes to the total, stamped by the system clock.
    pub fn record_response_traffic(&mut self, bytes: u64)
        requires
            old(self).wf(),
            old(self)@.total_traffic_bytes + bytes <= u64::MAX,
        ensures
            final(self).wf(),
            exists|t: u64| final(self)@ == #[trigger] traffic_recorded(old(self)@, bytes, t),
    {
        let t = now();
        self.record_response_traffic_at(bytes, t);
        assert(self@ == traffic_recorded(old(self)@, bytes, t));
    }

    /// A session opens the CAPTCHA page, by the system clock.
    pub fn enter_gate_queue(&mut self, session_id: &str)
        requires
            old(self).wf(),
        ensures
            final(self).wf(),
            exists|t: u64| final(self)@ == (AdminView {
                gate_queue: crate::strmap::at_least(old(self)@.gate_queue.insert(session_id@, t), #[trigger] sat_sub(t, GATE_QUEUE_WINDOW_SECS)),
                ..old(self)@
            }),
    {
        let t = now();
        self.enter_gate_queue_at(session_id, t);
        assert(self@ == (AdminView {
            gate_queue: crate::strmap::at_least(old(self)@.gate_queue.insert(session_id@, t), sat_sub(t, GATE_QUEUE_WINDOW_SECS)),
            ..old(self)@
        }));
    }

    /// The number of sessions on the CAPTCHA page, by the system clock.
    pub fn get_gate_queue_count(&mut self) -> (n: usize)
        requires
            old(self).wf(),
        ensures
            final(self).wf(),
            n == final(self)@.gate_queue.len(),
            exists|t: u64| final(self)@ == (AdminView {
                gate_queue: crate::strmap::at_least(old(self)@.gate_queue, #[trigger] sat_sub(t, GATE_QUEUE_WINDOW_SECS)),
                ..old(self)@
            }),
    {
        let t = now();
        let n = self.get_gate_queue_count_at(t);
        assert(self@ == (AdminView {
            gate_queue: crate::strmap::at_least(old(self)@.gate_queue, sat_sub(t, GATE_QUEUE_WINDOW_SECS)),
            ..old(self)@
        }));
        n
    }

    /// Logs a panel session in, by the system clock.
    pub fn create_admin_session(&mut self, session_id: &str)
        requires
            old(self).wf(),
        ensures
            final(self).wf(),
            exists|t: u64| final(self)@ == (AdminView {
                admin_sessions: crate::strmap::at_least(old(self)@.admin_sessions.insert(session_id@, t), #[trigger] sat_sub(t, ADMIN_SESSION_SECS)),
                ..old(self)@
            }),
    {
        let t = now();
        self.create_admin_session_at(session_id, t);
        assert(self@ == (AdminView {
            admin_sessions: crate::strmap::at_least(old(self)@.admin_sessions.insert(session_id@, t), sat_sub(t, ADMIN_SESSION_SECS)),
            ..old(self)@
        }));
    }

    /// Whether a panel login is valid, by the system clock.
    pub fn is_admin_session_valid(&self, session_id: &str) -> (r: bool)
        requires
            self.wf(),
        ensures
            exists|t: u64| r == #[trigger] login_fresh(self@, session_id@, t),
    {
        let t = now();
        let r = self.is_admin_session_valid_at(session_id, t);
        assert(r == login_fresh(self@, session_id@, t));
        r
    }

    /// Counts a request through a mirror, by the system clock.
    pub fn record_mirror_request(&mut self, onion_address: &str)
        requires
            old(self).wf(),
            first_mirror_with(old(self)@.mirror_ids, old(self)@.mirrors, onion_address@, 0) matches Some(k)
                ==> old(self)@.mirrors[old(self)@.mirror_ids[k]].total_requests < u64::MAX,
        ensures
            final(self).wf(),
            final(self)@ == (AdminView { mirrors: final(self)@.mirrors, mirror_ids: final(self)@.mirror_ids, ..old(self)@ }),
            match first_mirror_with(old(self)@.mirror_ids, old(self)@.mirrors, onion_address@, 0) {
                Some(k) => final(self)@.mirrors == old(self)@.mirrors.insert(old(self)@.mirror_ids[k], MirrorInfo {
                    total_requests: (old(self)@.mirrors[old(self)@.mirror_ids[k]].total_requests + 1) as u64,
                    ..old(self)@.mirrors[old(self)@.mirror_ids[k]]
                }),
                None => final(self)@.mirrors.dom() == old(self)@.mirrors.dom().insert(generated_mirror_id(onion_address@))
                    && final(self)@.mirrors == old(self)@.mirrors.insert(generated_mirror_id(onion_address@),
                        final(self)@.mirrors[generated_mirror_id(onion_address@)])
                    && ({
                        let e = final(self)@.mirrors[generated_mirror_id(onion_address@)];
                        &&& e.id@ == generated_mirror_id(onion_address@)
                        &&& e.onion_address@ == onion_address@
                        &&& e.status@ == "active"@
                        &&& e.total_requests == 1
                    }),
            },
    {
        let t = now();
        self.record_mirror_request_at(onion_address, t);
    }

    /// The headline numbers, by the system clock.
    pub fn get_stats(&self) -> (st: AdminStats)
        requires
            self.wf(),
            sum_requests(self.session_records()) <= u64::MAX,
            sum_violations(self.session_records()) <= u64::MAX,
        ensures
            st.total_sessions == self@.sessions.len(),
            st.banned_sessions == self@.banned.len(),
            st.healthy_nodes == pool_size(self.node_records(), "healthy"@),
            st.threat_nodes == pool_size(self.node_records(), "threat"@),
            st.active_mirrors == self@.mirrors.len(),
            st.total_requests == sum_requests(self.session_records()),
            st.total_violations == sum_violations(self.session_records()),
    {
        let t = now();
        self.get_stats_at(t)
    }
}

/// The time windows of the statistics page, in seconds: 15 minutes, an
/// hour, 4 hours, a day, a week and 30 days.
pub open spec fn window_secs() -> Seq<u64> {
    seq![900u64, 3600u64, 14400u64, 86400u64, 604800u64, 2592000u64]
}

/// The names of the time windows, in the same order.
pub fn window_names() -> (r: Vec<&'static str>)
    ensures
        r@.len() == 6,
{
    let mut r: Vec<&'static str> = Vec::new();
    r.push("15min");
    r.push("1hour");
    r.push("4hours");
    r.push("1day");
    r.push("1week");
    r.push("1month");
    r
}

fn window_length(i: usize) -> (s: u64)
    requires
        i < 6,
    ensures
        s == window_secs()[i as int],
{
    if i == 0 { 900 } else if i == 1 { 3600 } else if i == 2 { 14400 } else if i == 3 { 86400 } else if i == 4 { 604800 } else { 2592000 }
}

/// Whether a time `ts` is within `secs` of `now` (times after `now` count as now).
pub open spec fn within(now: u64, ts: u64, secs: u64) -> bool {
    sat_sub(now, ts) <= secs
}

/// Whether a log entry counts for a node: every entry counts when no node
/// is named.
pub open spec fn for_node(e: (u64, u64, Seq<char>), node: Option<Seq<char>>) -> bool {
    match node { Some(n) => e.2 == n, None => true }
}

/// The requests in the first `k` log entries within `secs` of `now`, for a node.
pub open spec fn window_requests(log: Seq<(u64, u64, Seq<char>)>, k: int, now: u64, secs: u64, node: Option<Seq<char>>) -> nat
    decreases k,
{
    if k <= 0 || k > log.len() {
        0
    } else {
        window_requests(log, k - 1, now, secs, node)
            + if within(now, log[k - 1].0, secs) && for_node(log[k - 1], node) { 1nat } else { 0nat }
    }
}

/// The bytes of the first `k` log entries within `secs` of `now`, for a node.
pub open spec fn window_bytes(log: Seq<(u64, u64, Seq<char>)>, k: int, now: u64, secs: u64, node: Option<Seq<char>>) -> nat
    decreases k,
{
    if k <= 0 || k > log.len() {
        0
    } else {
        window_bytes(log, k - 1, now, secs, node)
            + if within(now, log[k - 1].0, secs) && for_node(log[k - 1], node) { log[k - 1].1 as nat } else { 0nat }
    }
}

/// The bytes of the first `k` log entries.
pub open spec fn log_bytes(log: Seq<(u64, u64, Seq<char>)>, k: int) -> nat
    decreases k,
{
    if k <= 0 || k > log.len() { 0 } else { log_bytes(log, k - 1) + log[k - 1].1 as nat }
}

proof fn lemma_window_bytes_bounded(log: Seq<(u64, u64, Seq<char>)>, k: int, now: u64, secs: u64, node: Option<Seq<char>>)
    requires
        0 <= k <= log.len(),
    ensures
        window_bytes(log, k, now, secs, node) <= log_bytes(log, k),
        window_requests(log, k, now, secs, node) <= k,
    decreases k,
{
    if k > 0 {
        lemma_window_bytes_bounded(log, k - 1, now, secs, node);
    }
}

proof fn lemma_log_bytes_monotone(log: Seq<(u64, u64, Seq<char>)>, j: int, k: int)
    requires
        0 <= j <= k <= log.len(),
    ensures
        log_bytes(log, j) <= log_bytes(log, k),
    decreases k - j,
{
    if j < k {
        lemma_log_bytes_monotone(log, j, k - 1);
    }
}

proof fn lemma_log_bytes_prefix(log: Seq<(u64, u64, Seq<char>)>, e: (u64, u64, Seq<char>), k: int)
    requires
        0 <= k <= log.len(),
    ensures
        log_bytes(log.push(e), k) == log_bytes(log, k),
    decreases k,
{
    if k > 0 {
        lemma_log_bytes_prefix(log, e, k - 1);
        assert(log.push(e)[k - 1] == log[k - 1]);
    }
}

/// Appending an entry adds its bytes to the log's total.
proof fn lemma_log_bytes_push(log: Seq<(u64, u64, Seq<char>)>, e: (u64, u64, Seq<char>))
    ensures
        log_bytes(log.push(e), (log.len() + 1) as int) == log_bytes(log, log.len() as int) + e.1,
{
    lemma_log_bytes_prefix(log, e, log.len() as int);
    assert(log.push(e)[log.len() as int] == e);
}

/// Dropping entries never adds bytes.
proof fn lemma_log_bytes_filter(log: Seq<(u64, u64, Seq<char>)>, keep: spec_fn((u64, u64, Seq<char>)) -> bool)
    ensures
        log_bytes(log.filter(keep), log.filter(keep).len() as int) <= log_bytes(log, log.len() as int),
    decreases log.len(),
{
    reveal_with_fuel(Seq::filter, 1);
    if log.len() > 0 {
        let init = log.drop_last();
        lemma_log_bytes_filter(init, keep);
        assert(init.push(log.last()) =~= log);
        lemma_log_bytes_push(init, log.last());
        if keep(log.last()) {
            lemma_log_bytes_push(init.filter(keep), log.last());
        }
    }
}

/// Requests, bytes and active sessions within one time window.
#[derive(Debug, Clone, Copy, PartialEq, Eq, Structural)]
pub struct WindowStats {
    pub requests: u64,
    pub bytes: u64,
    pub sessions: usize,
}

/// A node's figures, overall and per time window.
#[derive(Debug)]
pub struct NodeTimeStats {
    pub node_id: String,
    pub mode: String,
    pub status: String,
    pub total_requests: u64,
    pub active_connections: usize,
    /// One entry per time window, in the order of `window_names`.
    pub windows: Vec<WindowStats>,
}

/// Figures per time window for every node and for the whole proxy.
#[derive(Debug)]
pub struct TimeBasedStats {
    /// One entry per node, in the order the nodes were first stored.
    pub per_node: Vec<NodeTimeStats>,
    /// One entry per time window, in the order of `window_names`.
    pub totals: Vec<WindowStats>,
    /// Sessions recorded at the CAPTCHA page.
    pub gate_queue: usize,
}

/// A node's request figures.
#[derive(Debug)]
pub struct NodeTrafficStats {
    pub node_id: String,
    pub mode: String,
    pub total_requests: u64,
    pub active_connections: usize,
}

/// A session's request figures.
#[derive(Debug)]
pub struct SessionTrafficStats {
    pub session_id: String,
    pub trust_tier: String,
    pub request_count: u64,
    pub total_bytes: u64,
    pub current_node: String,
}

/// Overall request figures.
#[derive(Debug)]
pub struct TrafficStats {
    pub total_requests: u64,
    pub total_bytes: u64,
    /// One entry per node, in the order the nodes were first stored.
    pub per_node: Vec<NodeTrafficStats>,
    /// One entry per session, busiest first.
    pub per_session: Vec<SessionTrafficStats>,
}

/// The number of sessions active within `secs` of `now`.
pub open spec fn active_within(ss: Seq<SessionInfo>, now: u64, secs: u64) -> nat {
    ss.filter(|s: SessionInfo| within(now, s.last_activity, secs)).len()
}

/// The figures of a time window as the statistics page shows them.
pub open spec fn window_stats_of(log: Seq<(u64, u64, Seq<char>)>, now: u64, secs: u64, node: Option<Seq<char>>, sessions: nat) -> WindowStats {
    WindowStats {
        requests: window_requests(log, log.len() as int, now, secs, node) as u64,
        bytes: window_bytes(log, log.len() as int, now, secs, node) as u64,
        sessions: sessions as usize,
    }
}

fn log_window(log: &Vec<(u64, u64, String)>, now: u64, secs: u64, node: Option<&str>) -> (r: (u64, u64))
    requires
        log_bytes(log_views(log@), log@.len() as int) <= u64::MAX,
    ensures
        r.0 == window_requests(log_views(log@), log@.len() as int, now, secs, match node { Some(n) => Some(n@), None => None }),
        r.1 == window_bytes(log_views(log@), log@.len() as int, now, secs, match node { Some(n) => Some(n@), None => None }),
{
    let ghost l = log_views(log@);
    let ghost nd = match node { Some(n) => Some(n@), None => None::<Seq<char>> };
    let mut requests: u64 = 0;
    let mut bytes: u64 = 0;
    let mut i: usize = 0;
    while i < log.len()
        invariant
            l == log_views(log@),
            i <= log@.len(),
            log_bytes(l, l.len() as int) <= u64::MAX,
            requests == window_requests(l, i as int, now, secs, nd),
            bytes == window_bytes(l, i as int, now, secs, nd),
            requests <= i,
            nd == match node { Some(n) => Some(n@), None => None::<Seq<char>> },
        decreases log@.len() - i,
    {
        let (ts, b, ref n) = log[i];
        let w = now.saturating_sub(ts) <= secs;
        let f = match node { Some(x) => str_eq(n.as_str(), x), None => true };
        let counts = w && f;
        proof {
            assert(l[i as int] == (ts, b, n@));
            assert(w == within(now, ts, secs));
            assert(f == for_node(l[i as int], nd));
            lemma_window_bytes_bounded(l, i + 1, now, secs, nd);
            lemma_log_bytes_monotone(l, i + 1, l.len() as int);
            assert(window_requests(l, i + 1, now, secs, nd) == requests + if counts { 1nat } else { 0nat });
            assert(window_bytes(l, i + 1, now, secs, nd) == bytes + if counts { b as nat } else { 0nat });
        }
        if counts {
            requests = requests + 1;
            bytes = bytes + b;
        }
        i = i + 1;
    }
    (requests, bytes)
}

impl AdminState {
    /// The number of sessions active within `secs` of `now`.
    fn sessions_within(&self, now: u64, secs: u64) -> (n: usize)
        requires
            self.wf(),
        ensures
            n == active_within(self.session_records(), now, secs),
    {
        let ghost ss = self.session_records();
        let total = self.sessions.len();
        let mut n: usize = 0;
        let mut i: usize = 0;
        proof {
            reveal_with_fuel(Seq::filter, 1);
            assert(ss.take(0) =~= Seq::<SessionInfo>::empty());
        }
        while i < total
            invariant
                self.wf(),
                ss == self.session_records(),
                total == ss.len(),
                i <= total,
                n <= i,
                n == active_within(ss.take(i as int), now, secs),
            decreases total - i,
        {
            let sess = self.sessions.value_at(i);
            proof {
                reveal_with_fuel(Seq::filter, 1);
                assert(ss.take(i + 1).drop_last() =~= ss.take(i as int));
                assert(ss.take(i + 1).last() == ss[i as int]);
                assert(ss[i as int] == *sess);
            }
            if now.saturating_sub(sess.last_activity) <= secs {
                n = n + 1;
            }
            i = i + 1;
        }
        proof {
            assert(ss.take(total as int) =~= ss);
        }
        n
    }

    /// Requests and bytes per time window at `now`, per node and in total,
    /// with the number of sessions active in each window; the queue at the CAPTCHA page is
    /// reported as recorded.
    pub fn get_time_based_stats_at(&self, now: u64) -> (st: TimeBasedStats)
        requires
            self.wf(),
        ensures
            st.gate_queue == self@.gate_queue.dom().len(),
            st.totals@.len() == 6,
            forall|j: int| 0 <= j < 6 ==> #[trigger] st.totals@[j] == window_stats_of(self@.request_log, now, window_secs()[j],
                None, active_within(self.session_records(), now, window_secs()[j])),
            st.per_node@.len() == self.node_records().len(),
            forall|i: int| 0 <= i < st.per_node@.len() ==> ({
                let p = #[trigger] st.per_node@[i];
                let n = self.node_records()[i];
                &&& p.node_id@ == n.id@
                &&& p.mode@ == n.mode@
                &&& p.status@ == n.status@
                &&& p.total_requests == n.total_requests
                &&& p.active_connections == n.active_connections
                &&& p.windows@.len() == 6
                &&& forall|j: int| 0 <= j < 6 ==> #[trigger] p.windows@[j] == window_stats_of(self@.request_log, now, window_secs()[j], Some(n.id@), 0)
            }),
    {
        proof {
            assert(log_bytes(self@.request_log, self@.request_log.len() as int) <= u64::MAX);
        }
        let mut totals: Vec<WindowStats> = Vec::new();
        let mut j: usize = 0;
        while j < 6
            invariant
                self.wf(),
                log_bytes(self@.request_log, self@.request_log.len() as int) <= u64::MAX,
                j <= 6,
                totals@.len() == j,
                forall|k: int| 0 <= k < j ==> #[trigger] totals@[k] == window_stats_of(self@.request_log, now, window_secs()[k],
                    None, active_within(self.session_records(), now, window_secs()[k])),
            decreases 6 - j,
        {
            let secs = window_length(j);
            let (requests, bytes) = log_window(&self.request_log, now, secs, None);
            let sessions = self.sessions_within(now, secs);
            totals.push(WindowStats { requests, bytes, sessions });
            j = j + 1;
        }
        let ghost ns = self.node_records();
        let count = self.nodes.len();
        let mut per_node: Vec<NodeTimeStats> = Vec::new();
        let mut i: usize = 0;
        while i < count
            invariant
                self.wf(),
                log_bytes(self@.request_log, self@.request_log.len() as int) <= u64::MAX,
                ns == self.node_records(),
                count == ns.len(),
                i <= count,
                per_node@.len() == i,
                forall|k: int| 0 <= k < i ==> ({
                    let p = #[trigger] per_node@[k];
                    let n = ns[k];
                    &&& p.node_id@ == n.id@
                    &&& p.mode@ == n.mode@
                    &&& p.status@ == n.status@
                    &&& p.total_requests == n.total_requests
                    &&& p.active_connections == n.active_connections
                    &&& p.windows@.len() == 6
                    &&& forall|j: int| 0 <= j < 6 ==> #[trigger] p.windows@[j] == window_stats_of(self@.request_log, now, window_secs()[j], Some(n.id@), 0)
                }),
            decreases count - i,
        {
            let node = self.nodes.value_at(i);
            proof {
                assert(ns[i as int] == *node);
            }
            let mut windows: Vec<WindowStats> = Vec::new();
            let mut j: usize = 0;
            while j < 6
                invariant
                    log_bytes(self@.request_log, self@.request_log.len() as int) <= u64::MAX,
                    j <= 6,
                    windows@.len() == j,
                    forall|k: int| 0 <= k < j ==> #[trigger] windows@[k] == window_stats_of(self@.request_log, now, window_secs()[k], Some(node.id@), 0),
                decreases 6 - j,
            {
                let secs = window_length(j);
                let (requests, bytes) = log_window(&self.request_log, now, secs, Some(node.id.as_str()));
                windows.push(WindowStats { requests, bytes, sessions: 0 });
                j = j + 1;
            }
            per_node.push(NodeTimeStats {
                node_id: node.id.clone(),
                mode: node.mode.clone(),
                status: node.status.clone(),
                total_requests: node.total_requests,
                active_connections: node.active_connections,
                windows,
            });
            i = i + 1;
        }
        TimeBasedStats { per_node, totals, gate_queue: self.gate_queue.len() }
    }

    /// Requests and bytes per time window, by the system clock.
    pub fn get_time_based_stats(&self) -> (st: TimeBasedStats)
        requires
            self.wf(),
        ensures
            st.gate_queue == self@.gate_queue.dom().len(),
            st.totals@.len() == 6,
            st.per_node@.len() == self.node_records().len(),
    {
        self.get_time_based_stats_at(now())
    }
}

/// A session's request figures as plain values: id, tier, requests,
/// bytes and current node.
pub type TrafficRow = (Seq<char>, Seq<char>, u64, u64, Seq<char>);

/// The figures of a session record.
pub open spec fn row_of(s: SessionInfo) -> TrafficRow {
    (s.session_id@, s.trust_tier@, s.request_count, s.total_bytes, s.current_node@)
}

/// The figures a session line carries.
pub open spec fn row_view(t: SessionTrafficStats) -> TrafficRow {
    (t.session_id@, t.trust_tier@, t.request_count, t.total_bytes, t.current_node@)
}

/// Where a row with `count` requests goes in a list ordered busiest first:
/// after every row with at least as many requests.
pub open spec fn count_slot(s: Seq<TrafficRow>, count: u64) -> int
    decreases s.len(),
{
    if s.len() == 0 { 0 } else if s[0].2 < count { 0 } else { 1 + count_slot(s.drop_first(), count) }
}

/// The rows ordered busiest first, rows with equal counts in their original order.
pub open spec fn busiest_first(s: Seq<TrafficRow>) -> Seq<TrafficRow>
    decreases s.len(),
{
    if s.len() == 0 {
        s
    } else {
        let r = busiest_first(s.drop_last());
        r.insert(count_slot(r, s.last().2), s.last())
    }
}

proof fn lemma_count_slot(s: Seq<TrafficRow>, count: u64)
    ensures
        0 <= count_slot(s, count) <= s.len(),
        forall|k: int| 0 <= k < count_slot(s, count) ==> s[k].2 >= count,
        count_slot(s, count) < s.len() ==> s[count_slot(s, count)].2 < count,
    decreases s.len(),
{
    if s.len() > 0 && s[0].2 >= count {
        lemma_count_slot(s.drop_first(), count);
        assert forall|k: int| 0 <= k < count_slot(s, count) implies s[k].2 >= count by {
            if k > 0 {
                assert(s[k] == s.drop_first()[k - 1]);
            }
        }
    }
}

proof fn lemma_count_slot_is(s: Seq<TrafficRow>, count: u64, j: int)
    requires
        0 <= j <= s.len(),
        forall|k: int| 0 <= k < j ==> s[k].2 >= count,
        j < s.len() ==> s[j].2 < count,
    ensures
        count_slot(s, count) == j,
    decreases s.len(),
{
    if s.len() > 0 && j > 0 {
        assert forall|k: int| 0 <= k < j - 1 implies s.drop_first()[k].2 >= count by {
            assert(s.drop_first()[k] == s[k + 1]);
        }
        lemma_count_slot_is(s.drop_first(), count, j - 1);
    }
}

/// Whether rows are ordered busiest first.
pub open spec fn by_count_desc(s: Seq<TrafficRow>) -> bool {
    forall|i: int, j: int| 0 <= i < j < s.len() ==> s[i].2 >= s[j].2
}

/// The per-session figures are ordered busiest first, and hold exactly the
/// sessions' figures, each as often as it occurs.
pub proof fn law_busiest_first_is_an_ordering(s: Seq<TrafficRow>)
    ensures
        by_count_desc(busiest_first(s)),
        busiest_first(s).to_multiset() == s.to_multiset(),
    decreases s.len(),
{
    broadcast use vstd::seq_lib::to_multiset_insert, vstd::seq_lib::to_multiset_build;
    if s.len() > 0 {
        let r = busiest_first(s.drop_last());
        law_busiest_first_is_an_ordering(s.drop_last());
        let x = s.last();
        let p = count_slot(r, x.2);
        lemma_count_slot(r, x.2);
        let t = r.insert(p, x);
        assert forall|i: int, j: int| 0 <= i < j < t.len() implies t[i].2 >= t[j].2 by {
            if j < p {
            } else if j == p {
                assert(t[i] == r[i]);
            } else if i < p {
                assert(t[j] == r[j - 1]);
                assert(r[i].2 >= x.2);
                if p < r.len() {
                    assert(r[p].2 < x.2);
                    assert(r[i].2 >= r[j - 1].2);
                }
            } else if i == p {
                assert(t[j] == r[j - 1]);
                assert(r[p].2 < x.2);
                assert(r[p].2 >= r[j - 1].2);
            } else {
                assert(t[i] == r[i - 1]);
                assert(t[j] == r[j - 1]);
            }
        }
        assert(s.drop_last().push(x) =~= s);
        assert(t.to_multiset() == r.to_multiset().insert(x));
    }
}

fn traffic_row(s: &SessionInfo) -> (t: SessionTrafficStats)
    ensures
        row_view(t) == row_of(*s),
{
    SessionTrafficStats {
        session_id: s.session_id.clone(),
        trust_tier: s.trust_tier.clone(),
        request_count: s.request_count,
        total_bytes: s.total_bytes,
        current_node: s.current_node.clone(),
    }
}

impl AdminState {
    /// Request figures: the totals, each node's counters in the order the
    /// nodes were first stored, and each session's figures busiest first
    /// (sessions with equal counts in the order they were first stored).
    pub fn get_traffic_stats(&self) -> (st: TrafficStats)
        requires
            self.wf(),
        ensures
            st.total_requests == self@.total_requests,
            st.total_bytes == self@.total_traffic_bytes,
            st.per_node@.len() == self.node_records().len(),
            forall|i: int| 0 <= i < st.per_node@.len() ==> ({
                let p = #[trigger] st.per_node@[i];
                let n = self.node_records()[i];
                &&& p.node_id@ == n.id@
                &&& p.mode@ == n.mode@
                &&& p.total_requests == n.total_requests
                &&& p.active_connections == n.active_connections
            }),
            st.per_session@.map_values(|t: SessionTrafficStats| row_view(t))
                == busiest_first(self.session_records().map_values(|s: SessionInfo| row_of(s))),
    {
        let ghost ns = self.node_records();
        let count = self.nodes.len();
        let mut per_node: Vec<NodeTrafficStats> = Vec::new();
        let mut i: usize = 0;
        while i < count
            invariant
                self.wf(),
                ns == self.node_records(),
                count == ns.len(),
                i <= count,
                per_node@.len() == i,
                forall|k: int| 0 <= k < i ==> ({
                    let p = #[trigger] per_node@[k];
                    let n = ns[k];
                    &&& p.node_id@ == n.id@
                    &&& p.mode@ == n.mode@
                    &&& p.total_requests == n.total_requests
                    &&& p.active_connections == n.active_connections
                }),
            decreases count - i,
        {
            let node = self.nodes.value_at(i);
            proof {
                assert(ns[i as int] == *node);
            }
            per_node.push(NodeTrafficStats {
                node_id: node.id.clone(),
                mode: node.mode.clone(),
                total_requests: node.total_requests,
                active_connections: node.active_connections,
            });
            i = i + 1;
        }
        let ghost rows = self.session_records().map_values(|s: SessionInfo| row_of(s));
        let n = self.sessions.len();
        let mut sorted: Vec<SessionTrafficStats> = Vec::new();
        let mut k: usize = 0;
        proof {
            assert(rows.take(0) =~= Seq::<TrafficRow>::empty());
            assert(sorted@.map_values(|t: SessionTrafficStats| row_view(t)) =~= busiest_first(rows.take(0)));
        }
        while k < n
            invariant
                self.wf(),
                rows == self.session_records().map_values(|s: SessionInfo| row_of(s)),
                n == rows.len(),
                k <= n,
                sorted@.map_values(|t: SessionTrafficStats| row_view(t)) == busiest_first(rows.take(k as int)),
            decreases n - k,
        {
            let sess = self.sessions.value_at(k);
            proof {
                assert(self.session_records()[k as int] == *sess);
                assert(rows[k as int] == row_of(*sess));
            }
            let t = traffic_row(sess);
            let ghost cur = sorted@.map_values(|t: SessionTrafficStats| row_view(t));
            let mut p: usize = 0;
            while p < sorted.len() && sorted[p].request_count >= t.request_count
                invariant
                    p <= sorted@.len(),
                    cur == sorted@.map_values(|t: SessionTrafficStats| row_view(t)),
                    forall|j: int| 0 <= j < p ==> cur[j].2 >= t.request_count,
                decreases sorted@.len() - p,
            {
                proof {
                    assert(cur[p as int] == row_view(sorted@[p as int]));
                }
                p = p + 1;
            }
            proof {
                if p < sorted@.len() {
                    assert(cur[p as int] == row_view(sorted@[p as int]));
                }
                lemma_count_slot_is(cur, t.request_count, p as int);
                let pre = rows.take(k + 1);
                assert(pre.drop_last() =~= rows.take(k as int));
                assert(pre.last() == row_view(t));
            }
            sorted.insert(p, t);
            proof {
                assert(sorted@.map_values(|t: SessionTrafficStats| row_view(t)) =~= cur.insert(p as int, row_view(t)));
            }
            k = k + 1;
        }
        proof {
            assert(rows.take(n as int) =~= rows);
        }
        TrafficStats {
            total_requests: self.total_requests,
            total_bytes: self.total_traffic_bytes,
            per_node,
            per_session: sorted,
        }
    }
}

/// The id of initial node `i` of pool `mode`: "healthy-0", "threat-2", ...
pub open spec fn initial_id(mode: Seq<char>, i: nat) -> Seq<char> {
    mode + "-"@ + decimal(i)
}

/// Whether `k` is the id of one of the first `n` initial nodes of pool `mode`.
pub open spec fn is_initial_id(mode: Seq<char>, k: Seq<char>, n: nat) -> bool {
    exists|i: nat| i < n && k == #[trigger] initial_id(mode, i)
}

/// Whether `r` is the record of initial node `i` of pool `mode`: named
/// after the pool and its place, at the backend's address, online since `now`.
pub open spec fn initial_node(r: NodeInfo, mode: Seq<char>, i: nat, address: Seq<char>, onion: Option<Seq<char>>, now: u64) -> bool {
    &&& r.id@ == initial_id(mode, i)
    &&& r.bind_addr@ == address
    &&& match r.onion_address { Some(o) => onion == Some(o@), None => onion is None }
    &&& r.mode@ == mode
    &&& r.status@ == "online"@
    &&& r.created_at == now
    &&& r.total_requests == 0
    &&& r.active_connections == 0
    &&& r.violations_detected == 0
}

proof fn lemma_initial_ids_differ(mode: Seq<char>, i: nat, j: nat)
    requires
        i != j,
    ensures
        initial_id(mode, i) != initial_id(mode, j),
{
    let p = mode + "-"@;
    if initial_id(mode, i) == initial_id(mode, j) {
        assert(decimal(i) =~= initial_id(mode, i).subrange(p.len() as int, initial_id(mode, i).len() as int));
        assert(decimal(j) =~= initial_id(mode, j).subrange(p.len() as int, initial_id(mode, j).len() as int));
        crate::text::lemma_decimal_injective(i, j);
    }
}

impl AdminState {
    /// Registers a pool's initial backends at `now`: backend `i` becomes node
    /// "{mode}-{i}", online, with the onion address given for it if any.
    pub fn register_initial_nodes_at(&mut self, mode: &str, nodes: &Vec<crate::backend::BackendNode>, onions: &Vec<Option<String>>, now: u64)
        requires
            old(self).wf(),
        ensures
            final(self).wf(),
            final(self)@ == (AdminView { nodes: final(self)@.nodes, ..old(self)@ }),
            forall|i: nat| i < nodes@.len() ==> final(self)@.nodes.contains_key(#[trigger] initial_id(mode@, i))
                && initial_node(final(self)@.nodes[initial_id(mode@, i)], mode@, i, nodes@[i as int].address@,
                    if i < onions@.len() { match onions@[i as int] { Some(o) => Some(o@), None => None } } else { None }, now),
            forall|k: Seq<char>| !is_initial_id(mode@, k, nodes@.len()) ==> (#[trigger] final(self)@.nodes.contains_key(k)
                == old(self)@.nodes.contains_key(k) && (old(self)@.nodes.contains_key(k) ==> final(self)@.nodes[k] == old(self)@.nodes[k])),
    {
        let mut i: usize = 0;
        while i < nodes.len()
            invariant
                self.wf(),
                i <= nodes@.len(),
                self@ == (AdminView { nodes: self@.nodes, ..old(self)@ }),
                forall|j: nat| j < i ==> self@.nodes.contains_key(#[trigger] initial_id(mode@, j))
                    && initial_node(self@.nodes[initial_id(mode@, j)], mode@, j, nodes@[j as int].address@,
                        if j < onions@.len() { match onions@[j as int] { Some(o) => Some(o@), None => None } } else { None }, now),
                forall|k: Seq<char>| !is_initial_id(mode@, k, i as nat) ==> (#[trigger] self@.nodes.contains_key(k)
                    == old(self)@.nodes.contains_key(k) && (old(self)@.nodes.contains_key(k) ==> self@.nodes[k] == old(self)@.nodes[k])),
            decreases nodes@.len() - i,
        {
            let mut id = concat_str(mode, "-");
            id.append(u64_to_decimal(i as u64).as_str());
            let onion = if i < onions.len() {
                match &onions[i] {
                    Some(o) => Some(o.clone()),
                    None => None,
                }
            } else {
                None
            };
            let info = NodeInfo {
                id,
                bind_addr: nodes[i].address.clone(),
                onion_address: onion,
                mode: owned(mode),
                status: owned("online"),
                created_at: now,
                total_requests: 0,
                active_connections: 0,
                violations_detected: 0,
            };
            let ghost before = self@;
            let ghost key = initial_id(mode@, i as nat);
            assert(info.id@ == key);
            self.update_node(info);
            proof {
                assert forall|j: nat| j < i + 1 implies self@.nodes.contains_key(#[trigger] initial_id(mode@, j))
                    && initial_node(self@.nodes[initial_id(mode@, j)], mode@, j, nodes@[j as int].address@,
                        if j < onions@.len() { match onions@[j as int] { Some(o) => Some(o@), None => None } } else { None }, now) by {
                    if j < i {
                        lemma_initial_ids_differ(mode@, j, i as nat);
                    }
                }
                assert forall|k: Seq<char>| !is_initial_id(mode@, k, (i + 1) as nat) implies (#[trigger] self@.nodes.contains_key(k)
                    == old(self)@.nodes.contains_key(k) && (old(self)@.nodes.contains_key(k) ==> self@.nodes[k] == old(self)@.nodes[k])) by {
                    assert(k != initial_id(mode@, i as nat));
                    assert(!is_initial_id(mode@, k, i as nat)) by {
                        if is_initial_id(mode@, k, i as nat) {
                            let w = choose|w: nat| w < i && k == #[trigger] initial_id(mode@, w);
                            assert(w < i + 1 && k == initial_id(mode@, w));
                        }
                    }
                }
            }
            i = i + 1;
        }
    }
}

} // verus!
