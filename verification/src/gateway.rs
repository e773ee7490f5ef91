//! What the proxy decides for each request: which paths skip checks, which
//! tokens a request carries, which circuit it is counted against, whether it
//! is admitted, and where it is routed.

use vstd::prelude::*;
use crate::text::{has_prefix, starts_with, str_eq, owned, split_on, split_char, trimmed, trim, views, strip_prefix, chars_of, string_of};
use crate::tier::{TrustTier, tier_requires_gate, tier_limit, tier_of_lowercase, lowercase, tier_from_override};
use crate::ratelimit::{GlobalRateLimiter, recent, window_start, has_entry, recent_sightings};
use crate::backend::{Metrics, BackpressureController};

verus! {

/// The secret path prefix of the admin panel.
pub const ADMIN_PATH: &'static str = "/ctrl_8f7k3m9x2n4p1q6w5v0b8c";

/// Whether a path belongs to the admin panel.
pub fn is_admin_request(path: &str) -> (r: bool)
    ensures
        r == has_prefix(path@, ADMIN_PATH@),
{
    starts_with(path, ADMIN_PATH)
}

/// Paths that must stay reachable during an attack (the CAPTCHA gateway).
pub open spec fn skips_rate_limit(path: Seq<char>) -> bool {
    has_prefix(path, "/gate/"@) || path == "/Fortify/Portcullis"@ || has_prefix(path, "/gate"@)
}

/// Whether a path is exempt from per-circuit rate limiting.
pub fn bypasses_rate_limit(path: &str) -> (r: bool)
    ensures
        r == skips_rate_limit(path@),
{
    starts_with(path, "/gate/") || str_eq(path, "/Fortify/Portcullis") || starts_with(path, "/gate")
}

/// Only the CAPTCHA gateway's paths skip the per-circuit limiter: a path
/// skips it exactly when it begins with "/gate" or is the Portcullis page;
/// every other path, "/" and "/index.html" among them, is charged to its circuit.
pub proof fn law_only_gate_paths_skip_limit(path: Seq<char>)
    ensures
        skips_rate_limit(path) <==> (
            (path.len() >= 5 && path[0] == '/' && path[1] == 'g' && path[2] == 'a' && path[3] == 't' && path[4] == 'e')
            || path == "/Fortify/Portcullis"@),
{
    reveal_strlit("/gate/");
    reveal_strlit("/gate");
    if path.len() >= 5 && path[0] == '/' && path[1] == 'g' && path[2] == 'a' && path[3] == 't' && path[4] == 'e' {
        assert(path.subrange(0, 5) =~= "/gate"@);
    }
    if has_prefix(path, "/gate/"@) {
        assert(path.subrange(0, 6)[0] == path[0]);
        assert(path[0] == '/' && path[1] == 'g' && path[2] == 'a' && path[3] == 't' && path[4] == 'e') by {
            assert(path.subrange(0, 6) == "/gate/"@);
            assert(path.subrange(0, 6)[1] == path[1]);
            assert(path.subrange(0, 6)[2] == path[2]);
            assert(path.subrange(0, 6)[3] == path[3]);
            assert(path.subrange(0, 6)[4] == path[4]);
        }
    }
    if has_prefix(path, "/gate"@) {
        assert(path.subrange(0, 5) == "/gate"@);
        assert(path.subrange(0, 5)[0] == path[0]);
        assert(path.subrange(0, 5)[1] == path[1]);
        assert(path.subrange(0, 5)[2] == path[2]);
        assert(path.subrange(0, 5)[3] == path[3]);
        assert(path.subrange(0, 5)[4] == path[4]);
    }
}

/// Whether a path is served by the CAPTCHA gateway whatever the session's state.
pub fn is_gate_path(path: &str) -> (r: bool)
    ensures
        r == (has_prefix(path@, "/gate/"@) || has_prefix(path@, "/Fortify/"@)),
{
    starts_with(path, "/gate/") || starts_with(path, "/Fortify/")
}

/// The CAPTCHA gateway path a threat-pool request is forwarded to.
pub fn gate_path_for(path: &str) -> (r: String)
    ensures
        r@ == if path@ == "/"@ || path@.len() == 0 { "/Fortify"@ } else { path@ },
{
    if str_eq(path, "/") || path.is_empty() {
        owned("/Fortify")
    } else {
        owned(path)
    }
}

/// The trimmed pieces of a `Cookie` header.
pub open spec fn cookie_pieces(header: Seq<char>) -> Seq<Seq<char>> {
    split_on(header, ';').map_values(|p: Seq<char>| trimmed(p))
}

/// The value of the last cookie that starts with `prefix`.
pub open spec fn last_with_prefix(pieces: Seq<Seq<char>>, prefix: Seq<char>) -> Option<Seq<char>>
    decreases pieces.len(),
{
    if pieces.len() == 0 {
        None
    } else if has_prefix(pieces.last(), prefix) {
        Some(pieces.last().subrange(prefix.len() as int, pieces.last().len() as int))
    } else {
        last_with_prefix(pieces.drop_last(), prefix)
    }
}

/// The value of the first cookie that starts with `prefix`.
pub open spec fn first_with_prefix(pieces: Seq<Seq<char>>, prefix: Seq<char>) -> Option<Seq<char>>
    decreases pieces.len(),
{
    if pieces.len() == 0 {
        None
    } else if first_with_prefix(pieces.drop_last(), prefix) is Some {
        first_with_prefix(pieces.drop_last(), prefix)
    } else if has_prefix(pieces.last(), prefix) {
        Some(pieces.last().subrange(prefix.len() as int, pieces.last().len() as int))
    } else {
        None
    }
}

fn trimmed_pieces(header: &str) -> (r: Vec<String>)
    ensures
        views(r@) == cookie_pieces(header@),
{
    let raw = split_char(header, ';');
    let mut r: Vec<String> = Vec::new();
    let mut i: usize = 0;
    while i < raw.len()
        invariant
            i <= raw@.len(),
            views(raw@) == split_on(header@, ';'),
            views(r@) == views(raw@).take(i as int).map_values(|p: Seq<char>| trimmed(p)),
        decreases raw@.len() - i,
    {
        let t = trim(raw[i].as_str());
        let ghost before = views(r@);
        r.push(t);
        proof {
            assert(views(raw@)[i as int] == raw@[i as int]@);
            assert(views(r@) =~= before.push(trimmed(raw@[i as int]@)));
            assert(views(r@) =~= views(raw@).take(i + 1).map_values(|p: Seq<char>| trimmed(p)));
        }
        i = i + 1;
    }
    proof {
        assert(views(raw@).take(raw@.len() as int) =~= views(raw@));
    }
    r
}

/// The value of the first cookie in `header` named by `prefix` (which holds
/// the name and the `=`).
pub fn cookie_value(header: &str, prefix: &str) -> (r: Option<String>)
    ensures
        match r {
            Some(v) => first_with_prefix(cookie_pieces(header@), prefix@) == Some(v@),
            None => first_with_prefix(cookie_pieces(header@), prefix@) is None,
        },
{
    let pieces = trimmed_pieces(header);
    let ghost ps = views(pieces@);
    let mut i: usize = 0;
    while i < pieces.len()
        invariant
            i <= pieces@.len(),
            ps == views(pieces@),
            ps == cookie_pieces(header@),
            first_with_prefix(ps.take(i as int), prefix@) is None,
        decreases pieces@.len() - i,
    {
        let found = strip_prefix(pieces[i].as_str(), prefix);
        proof {
            assert(ps[i as int] == pieces@[i as int]@);
            assert(ps.take(i + 1).drop_last() =~= ps.take(i as int));
            assert(ps.take(i + 1).last() == ps[i as int]);
        }
        match found {
            Some(v) => {
                proof {
                    assert(first_with_prefix(ps.take(i + 1), prefix@) == Some(v@));
                    lemma_first_stays(ps, prefix@, i + 1);
                    assert(ps == cookie_pieces(header@));
                    assert(first_with_prefix(ps, prefix@) == Some(v@));
                }
                return Some(v);
            },
            None => {},
        }
        i = i + 1;
    }
    proof {
        assert(ps.take(ps.len() as int) =~= ps);
    }
    None
}

proof fn lemma_first_stays(ps: Seq<Seq<char>>, prefix: Seq<char>, k: int)
    requires
        0 <= k <= ps.len(),
        first_with_prefix(ps.take(k), prefix) is Some,
    ensures
        first_with_prefix(ps, prefix) == first_with_prefix(ps.take(k), prefix),
    decreases ps.len() - k,
{
    if k < ps.len() {
        assert(ps.take(k + 1).drop_last() =~= ps.take(k));
        lemma_first_stays(ps, prefix, k + 1);
    } else {
        assert(ps.take(k) =~= ps);
    }
}

/// The session and verification tokens a request carries: a `Bearer`
/// authorization gives the session token, and the `fortify_session` and
/// `fortify_verification` cookies (the last of each) override it.
pub open spec fn tokens_of(authorization: Option<Seq<char>>, cookie: Option<Seq<char>>) -> (Option<Seq<char>>, Option<Seq<char>>) {
    let bearer = match authorization {
        Some(a) => if has_prefix(a, "Bearer "@) { Some(a.subrange(7, a.len() as int)) } else { None },
        None => None,
    };
    match cookie {
        Some(c) => {
            let from_cookie = last_with_prefix(cookie_pieces(c), "fortify_session="@);
            (if from_cookie is Some { from_cookie } else { bearer },
             last_with_prefix(cookie_pieces(c), "fortify_verification="@))
        },
        None => (bearer, None),
    }
}

/// The characters of an optional owned string.
pub open spec fn view_opt(o: Option<String>) -> Option<Seq<char>> {
    match o { Some(s) => Some(s@), None => None }
}

/// The characters of an optional string slice.
pub open spec fn view_opt_str(o: Option<&str>) -> Option<Seq<char>> {
    match o { Some(s) => Some(s@), None => None }
}

/// Extracts the session token and the verification token from the
/// `Authorization` and `Cookie` header values.
pub fn extract_tokens(authorization: Option<&str>, cookie: Option<&str>) -> (r: (Option<String>, Option<String>))
    ensures
        view_opt(r.0) == tokens_of(view_opt_str(authorization), view_opt_str(cookie)).0,
        view_opt(r.1) == tokens_of(view_opt_str(authorization), view_opt_str(cookie)).1,
{
    proof { reveal_strlit("Bearer "); }
    let mut session: Option<String> = match authorization {
        Some(a) => strip_prefix(a, "Bearer "),
        None => None,
    };
    let mut verification: Option<String> = None;
    match cookie {
        None => {},
        Some(c) => {
            let pieces = trimmed_pieces(c);
            let ghost ps = views(pieces@);
            let ghost bearer = view_opt(session);
            let mut i: usize = 0;
            proof {
                assert(ps.take(0) =~= Seq::<Seq<char>>::empty());
            }
            while i < pieces.len()
                invariant
                    i <= pieces@.len(),
                    ps == views(pieces@),
                    view_opt(session) == if last_with_prefix(ps.take(i as int), "fortify_session="@) is Some {
                        last_with_prefix(ps.take(i as int), "fortify_session="@)
                    } else {
                        bearer
                    },
                    view_opt(verification) == last_with_prefix(ps.take(i as int), "fortify_verification="@),
                decreases pieces@.len() - i,
            {
                proof {
                    assert(ps.take(i + 1).drop_last() =~= ps.take(i as int));
                    assert(ps.take(i + 1).last() == ps[i as int]);
                }
                match strip_prefix(pieces[i].as_str(), "fortify_session=") {
                    Some(v) => { session = Some(v); },
                    None => {},
                }
                match strip_prefix(pieces[i].as_str(), "fortify_verification=") {
                    Some(v) => { verification = Some(v); },
                    None => {},
                }
                i = i + 1;
            }
            proof {
                assert(ps.take(ps.len() as int) =~= ps);
            }
        },
    }
    (session, verification)
}

/// The session token alone (see `extract_tokens`).
pub fn extract_token(authorization: Option<&str>, cookie: Option<&str>) -> (r: Option<String>)
    ensures
        view_opt(r) == tokens_of(view_opt_str(authorization), view_opt_str(cookie)).0,
{
    let (session, _verification) = extract_tokens(authorization, cookie);
    session
}

/// The token of an `Authorization: Bearer ...` header value.
pub fn extract_bearer_token(authorization: Option<&str>) -> (r: Option<String>)
    ensures
        view_opt(r) == match authorization {
            Some(a) => if has_prefix(a@, "Bearer "@) { Some(a@.skip(7)) } else { None },
            None => None,
        },
{
    proof { reveal_strlit("Bearer "); }
    match authorization {
        Some(a) => strip_prefix(a, "Bearer "),
        None => None,
    }
}

/// Whether every character is ASCII.
pub open spec fn ascii(s: Seq<char>) -> bool {
    forall|i: int| 0 <= i < s.len() ==> (#[trigger] s[i] as u32) < 128
}

/// The first `n` characters of `s`, or all of them when it is shorter.
pub open spec fn head(s: Seq<char>, n: nat) -> Seq<char> {
    if s.len() <= n { s } else { s.take(n as int) }
}

/// The circuit a request is counted against: a decodable session cookie
/// names it by the token's first 16 characters; otherwise the client address
/// and the first 20 characters of the user agent ("unknown" when absent) do.
pub open spec fn circuit_of(session_cookie: Option<Seq<char>>, cookie_decodes: bool, client_ip: Seq<char>, user_agent: Option<Seq<char>>) -> Seq<char> {
    if session_cookie is Some && cookie_decodes {
        "session_"@ + session_cookie->0.take(16)
    } else {
        let ua = match user_agent { Some(u) => u, None => "unknown"@ };
        "temp_"@ + client_ip + "_"@ + head(ua, 20)
    }
}

pub(crate) fn head_string(s: &str, n: usize) -> (r: String)
    ensures
        r@ == head(s@, n as nat),
{
    let v = chars_of(s);
    if v.len() <= n {
        proof { assert(v@.subrange(0, v@.len() as int) =~= v@); }
        string_of(v.as_slice(), 0, v.len())
    } else {
        string_of(v.as_slice(), 0, n)
    }
}

/// The rate-limit circuit of a request (see `circuit_of`). Header values are
/// ASCII; a decodable token is at least 16 characters long.
pub fn circuit_id_for(session_cookie: Option<&str>, cookie_decodes: bool, client_ip: &str, user_agent: Option<&str>) -> (r: String)
    requires
        session_cookie is Some && cookie_decodes ==> session_cookie->0@.len() >= 16,
    ensures
        r@ == circuit_of(view_opt_str(session_cookie), cookie_decodes, client_ip@, view_opt_str(user_agent)),
{
    proof {
        reveal_strlit("session_");
        reveal_strlit("temp_");
        reveal_strlit("_");
        reveal_strlit("unknown");
    }
    match session_cookie {
        Some(t) => {
            if cookie_decodes {
                let mut r = owned("session_");
                let h = head_string(t, 16);
                r.append(h.as_str());
                return r;
            }
        },
        None => {},
    }
    let ua = match user_agent { Some(u) => u, None => "unknown" };
    let mut r = owned("temp_");
    r.append(client_ip);
    r.append("_");
    let h = head_string(ua, 20);
    r.append(h.as_str());
    r
}

/// The client address: the first entry of `X-Forwarded-For` (trimmed), else
/// `X-Real-IP`, else "unknown".
pub fn extract_client_ip(forwarded_for: Option<&str>, real_ip: Option<&str>) -> (r: String)
    ensures
        r@ == match forwarded_for {
            Some(x) => trimmed(split_on(x@, ',')[0]),
            None => match real_ip { Some(ip) => ip@, None => "unknown"@ },
        },
{
    match forwarded_for {
        Some(x) => {
            let parts = split_char(x, ',');
            proof {
                crate::text::lemma_split_on_nonempty(x@, ',');
                assert(views(parts@)[0] == parts@[0]@);
            }
            trim(parts[0].as_str())
        },
        None => match real_ip {
            Some(ip) => owned(ip),
            None => owned("unknown"),
        },
    }
}

/// What checking a session token found.
pub struct TokenFacts {
    pub session_id: String,
    pub tier: TrustTier,
    /// Seconds since the epoch at which the token was issued.
    pub issued_at: u64,
    /// The signature matches the proxy's key.
    pub signature_valid: bool,
    /// The token is neither expired nor burned.
    pub unexpired: bool,
    /// The token's user-agent binding matches the request.
    pub user_agent_matches: bool,
}

/// The session token a request presented.
pub enum TokenCheck {
    /// No session token at all.
    Absent,
    /// A token that does not decode.
    Undecodable,
    /// A decoded token and what checking it found.
    Decoded(TokenFacts),
}

/// How the proxy treats the session behind a request.
pub struct SessionResolution {
    pub tier: TrustTier,
    /// The session id of a fully valid token.
    pub verified_session_id: Option<String>,
    /// The session id of a token that must be verified again at the CAPTCHA gateway.
    pub stale_session_id: Option<String>,
    /// Count a valid token.
    pub token_valid: bool,
    /// Count an invalid token.
    pub token_invalid: bool,
    /// Drop the administrator's tier override (fresh Verified token).
    pub clear_tier_override: bool,
}

/// The session a request goes on with: that of a fully valid token, else
/// that of a stale token, else a new session under a fresh random id.
pub fn session_id_for(res: &SessionResolution) -> (r: String)
    ensures
        res.verified_session_id matches Some(v) ==> r@ == v@,
        res.verified_session_id is None ==> (res.stale_session_id matches Some(s) ==> r@ == s@),
        res.verified_session_id is None && res.stale_session_id is None ==> r@.len() == 36,
{
    match &res.verified_session_id {
        Some(v) => v.clone(),
        None => match &res.stale_session_id {
            Some(s) => s.clone(),
            None => crate::random::new_uuid_v4(),
        },
    }
}

/// Whether a decoded token is fully valid.
pub open spec fn token_accepted(f: TokenFacts) -> bool {
    f.signature_valid && f.unexpired && f.user_agent_matches
}

/// Resolves the session of a request from its token: a fully valid token
/// keeps its tier and session; a token with a bad signature, an expired
/// token or one bound to another user agent keeps only its session id, which
/// must pass the CAPTCHA gateway again at tier Unknown; no token leaves the tier Unknown.
/// A Verified token younger than 30 seconds clears an override.
pub fn resolve_session_token(check: TokenCheck, now: u64) -> (r: SessionResolution)
    ensures
        match check {
            TokenCheck::Decoded(f) => {
                if token_accepted(f) {
                    &&& r.tier == f.tier
                    &&& view_opt(r.verified_session_id) == Some(f.session_id@)
                    &&& r.stale_session_id is None
                    &&& r.token_valid && !r.token_invalid
                    &&& r.clear_tier_override == (f.tier == TrustTier::Verified
                        && (if now >= f.issued_at { now - f.issued_at } else { 0 }) < 30)
                } else {
                    &&& r.tier == TrustTier::Unknown
                    &&& r.verified_session_id is None
                    &&& view_opt(r.stale_session_id) == Some(f.session_id@)
                    &&& !r.token_valid && r.token_invalid
                    &&& !r.clear_tier_override
                }
            },
            _ => {
                &&& r.tier == TrustTier::Unknown
                &&& r.verified_session_id is None
                &&& r.stale_session_id is None
                &&& !r.token_valid && !r.token_invalid
                &&& !r.clear_tier_override
            },
        },
{
    match check {
        TokenCheck::Decoded(f) => {
            if f.signature_valid && f.unexpired && f.user_agent_matches {
                let age = if now >= f.issued_at { now - f.issued_at } else { 0 };
                let clear = f.tier == TrustTier::Verified && age < 30;
                SessionResolution {
                    tier: f.tier,
                    verified_session_id: Some(f.session_id),
                    stale_session_id: None,
                    token_valid: true,
                    token_invalid: false,
                    clear_tier_override: clear,
                }
            } else {
                SessionResolution {
                    tier: TrustTier::Unknown,
                    verified_session_id: None,
                    stale_session_id: Some(f.session_id),
                    token_valid: false,
                    token_invalid: true,
                    clear_tier_override: false,
                }
            }
        },
        _ => SessionResolution {
            tier: TrustTier::Unknown,
            verified_session_id: None,
            stale_session_id: None,
            token_valid: false,
            token_invalid: false,
            clear_tier_override: false,
        },
    }
}

/// Where a request goes once its session is known.
#[derive(Debug, Clone, Copy, PartialEq, Eq, Structural)]
pub enum RouteDecision {
    /// Blacklisted by the controller: back to the CAPTCHA gateway with the demoted cookie.
    Blacklisted,
    /// Killed repeat offender: the recovery page.
    Killed,
    /// Banned by the administrator: 403.
    Banned,
    /// Burned tier: the recovery page.
    Burned,
    /// Threat pool: proxied to the CAPTCHA gateway.
    ToCaptcha,
    /// Healthy pool: proxied to a backend.
    Backend,
}

/// The tier after an administrator override.
pub open spec fn effective_tier(tier: TrustTier, override_name: Option<Seq<char>>) -> TrustTier {
    match override_name {
        Some(n) => tier_of_lowercase(lowercase(n)),
        None => tier,
    }
}

/// The route for a session: blacklist, kill and ban are checked in that
/// order; then the override (if any) replaces the tier; a Burned tier is
/// refused, a tier that requires the CAPTCHA gateway goes there, and only Verified and
/// Trusted sessions reach a backend.
pub open spec fn route_of(tier: TrustTier, override_name: Option<Seq<char>>, blacklisted: bool, killed: bool, banned: bool) -> RouteDecision {
    if blacklisted {
        RouteDecision::Blacklisted
    } else if killed {
        RouteDecision::Killed
    } else if banned {
        RouteDecision::Banned
    } else if effective_tier(tier, override_name) == TrustTier::Burned {
        RouteDecision::Burned
    } else if tier_requires_gate(effective_tier(tier, override_name)) {
        RouteDecision::ToCaptcha
    } else {
        RouteDecision::Backend
    }
}

/// Decides where a request goes; returns the route and the tier in force.
pub fn decide_route(tier: TrustTier, override_name: Option<&str>, blacklisted: bool, killed: bool, banned: bool) -> (r: (RouteDecision, TrustTier))
    ensures
        r.0 == route_of(tier, view_opt_str(override_name), blacklisted, killed, banned),
        r.1 == if blacklisted || killed || banned { tier } else { effective_tier(tier, view_opt_str(override_name)) },
        r.0 == RouteDecision::Backend ==> !tier_requires_gate(r.1) && !blacklisted && !killed && !banned,
{
    if blacklisted {
        return (RouteDecision::Blacklisted, tier);
    }
    if killed {
        return (RouteDecision::Killed, tier);
    }
    if banned {
        return (RouteDecision::Banned, tier);
    }
    let t = match override_name {
        Some(n) => tier_from_override(n),
        None => tier,
    };
    if t == TrustTier::Burned {
        (RouteDecision::Burned, t)
    } else if t.requires_gate() {
        (RouteDecision::ToCaptcha, t)
    } else {
        (RouteDecision::Backend, t)
    }
}

/// No session that must pass the CAPTCHA gateway (or is blacklisted, killed or banned)
/// is ever routed to a backend.
pub proof fn law_gated_tiers_never_reach_backend(tier: TrustTier, override_name: Option<Seq<char>>, blacklisted: bool, killed: bool, banned: bool)
    ensures
        route_of(tier, override_name, blacklisted, killed, banned) == RouteDecision::Backend ==> {
            &&& !blacklisted && !killed && !banned
            &&& (effective_tier(tier, override_name) == TrustTier::Verified || effective_tier(tier, override_name) == TrustTier::Trusted)
        },
{
}

/// The first checks a request meets.
#[derive(Debug, Clone, Copy, PartialEq, Eq, Structural)]
pub enum Admission {
    /// Served by the admin panel; nothing is counted.
    AdminPanel,
    /// Over the circuit's rate limit: redirected to the CAPTCHA.
    RateLimited,
    /// Too many requests in flight: 503.
    Overloaded,
    /// Admitted; a request slot is held until `finish_request`.
    Proceed,
}

/// Admits a request: admin-panel paths pass untouched; other paths, unless
/// they lead to the CAPTCHA gateway, are charged to their circuit and refused over its
/// limit; an admitted request is counted and then needs a free request slot.
pub fn admit_request(
    limiter: &mut GlobalRateLimiter,
    slots: &mut BackpressureController,
    metrics: &mut Metrics,
    path: &str,
    circuit_id: &str,
    tier: TrustTier,
    now: u64,
) -> (a: Admission)
    requires
        old(limiter).wf(),
        old(metrics).requests_total < u64::MAX,
        old(metrics).requests_denied < u64::MAX,
    ensures
        final(limiter).wf(),
        has_prefix(path@, ADMIN_PATH@) ==> a == Admission::AdminPanel && *final(metrics) == *old(metrics)
            && final(limiter).entries() == old(limiter).entries()
            && final(slots).active_requests == old(slots).active_requests,
        !has_prefix(path@, ADMIN_PATH@) && skips_rate_limit(path@) ==> final(limiter).entries() == old(limiter).entries(),
        has_prefix(path@, ADMIN_PATH@) || skips_rate_limit(path@) ==> final(limiter).sightings() == old(limiter).sightings(),
        final(limiter).window() == old(limiter).window(),
        !has_prefix(path@, ADMIN_PATH@) && !skips_rate_limit(path@) ==> ({
            let kept = recent(old(limiter).times_of(circuit_id@), window_start(now, old(limiter).window()));
            &&& has_entry(final(limiter).entries(), circuit_id@)
            &&& final(limiter).times_of(circuit_id@) == if kept.len() < tier_limit(tier) { kept.push(now) } else { kept }
            &&& kept.len() < tier_limit(tier) ==> final(limiter).sightings() == recent_sightings(
                old(limiter).sightings(), window_start(now, old(limiter).window())).push((now, circuit_id@))
            &&& kept.len() >= tier_limit(tier) ==> final(limiter).sightings() == old(limiter).sightings()
        }),
        forall|other: Seq<char>| other != circuit_id@ ==> (#[trigger] has_entry(final(limiter).entries(), other)
            == has_entry(old(limiter).entries(), other) && final(limiter).times_of(other) == old(limiter).times_of(other)),
        ({
            let refused = !has_prefix(path@, ADMIN_PATH@) && !skips_rate_limit(path@)
                && recent(old(limiter).times_of(circuit_id@), window_start(now, old(limiter).window())).len() >= tier_limit(tier);
            &&& refused ==> a == Admission::RateLimited
                && final(metrics).requests_denied == old(metrics).requests_denied + 1
                && final(metrics).requests_total == old(metrics).requests_total
                && final(slots).active_requests == old(slots).active_requests
            &&& (!has_prefix(path@, ADMIN_PATH@) && !refused) ==> {
                &&& final(metrics).requests_total == old(metrics).requests_total + 1
                &&& (old(slots).active_requests >= old(slots).max_concurrent ==> a == Admission::Overloaded
                    && final(metrics).requests_denied == old(metrics).requests_denied + 1
                    && final(slots).active_requests == old(slots).active_requests)
                &&& (old(slots).active_requests < old(slots).max_concurrent ==> a == Admission::Proceed
                    && final(metrics).requests_denied == old(metrics).requests_denied
                    && final(slots).active_requests == old(slots).active_requests + 1)
            }
        }),
        final(slots).max_concurrent == old(slots).max_concurrent,
        final(metrics).requests_allowed == old(metrics).requests_allowed,
        final(metrics).tokens_valid == old(metrics).tokens_valid,
        final(metrics).tokens_invalid == old(metrics).tokens_invalid,
        final(metrics).backend_errors == old(metrics).backend_errors,
{
    if is_admin_request(path) {
        return Admission::AdminPanel;
    }
    if !bypasses_rate_limit(path) {
        if !limiter.check_and_record_at(circuit_id, tier, now) {
            metrics.record_denied();
            return Admission::RateLimited;
        }
    }
    metrics.record_request();
    match slots.try_acquire() {
        Ok(_slot) => Admission::Proceed,
        Err(_) => {
            metrics.record_denied();
            Admission::Overloaded
        },
    }
}

/// Gives back the request slot of an admitted request.
pub fn finish_request(slots: &mut BackpressureController)
    ensures
        final(slots).active_requests == if old(slots).active_requests > 0 { old(slots).active_requests - 1 } else { 0 },
        final(slots).max_concurrent == old(slots).max_concurrent,
{
    slots.release();
}

/// The session token the CAPTCHA gateway hands back for a verification
/// token: the string `session_token` of a 200 answer's JSON body.
pub fn upgraded_session_token(status: u16, body: &[u8]) -> (r: Option<String>)
    ensures
        status != 200 ==> r is None,
        status == 200 ==> match crate::json::json_str_field(body@, "session_token"@) {
            Some(Some(t)) => r matches Some(s) && s@ == t,
            _ => r is None,
        },
{
    if status != 200 {
        return None;
    }
    match crate::json::read_json_str_field(body, "session_token") {
        Some(Some(t)) => Some(t),
        _ => None,
    }
}

/// The values of every cookie in `header` named by `prefix` (which holds
/// the name and the `=`), in order.
pub fn cookie_values(header: &str, prefix: &str) -> (r: Vec<String>)
    ensures
        views(r@) == crate::forms::all_with_prefix(cookie_pieces(header@), prefix@),
{
    let pieces = trimmed_pieces(header);
    let ghost ps = views(pieces@);
    let mut r: Vec<String> = Vec::new();
    let mut i: usize = 0;
    proof {
        assert(ps.take(0) =~= Seq::<Seq<char>>::empty());
        assert(views(r@) =~= Seq::<Seq<char>>::empty());
    }
    while i < pieces.len()
        invariant
            i <= pieces@.len(),
            ps == views(pieces@),
            ps == cookie_pieces(header@),
            views(r@) == crate::forms::all_with_prefix(ps.take(i as int), prefix@),
        decreases pieces@.len() - i,
    {
        let found = strip_prefix(pieces[i].as_str(), prefix);
        let ghost before = views(r@);
        proof {
            assert(ps[i as int] == pieces@[i as int]@);
            assert(ps.take(i + 1).drop_last() =~= ps.take(i as int));
            assert(ps.take(i + 1).last() == ps[i as int]);
        }
        match found {
            Some(v) => {
                r.push(v);
                proof {
                    assert(views(r@) =~= before.push(v@));
                }
            },
            None => {},
        }
        i = i + 1;
    }
    proof {
        assert(ps.take(ps.len() as int) =~= ps);
    }
    r
}

} // verus!
