//! The orchestrator's HTTP interface: which requests it answers itself,
//! which need the internal token, and what a mirror request's body names.

use vstd::prelude::*;
use crate::admin::{ADMIN_PASSWORD, generate_auth_token, hex};
use crate::registry::{MirrorInfo, MirrorRegistry};
use crate::text::{owned, str_eq, contains_str, has_infix, concat_str, u64_to_decimal, decimal};
use crate::json::{json_str_field, read_json_str_field};

verus! {

/// Whether a path is one of the endpoints that change mirrors, which need
/// the internal token.
pub open spec fn admin_endpoint(path: Seq<char>) -> bool {
    path == "/mirror/create"@ || path == "/mirror/create-standby"@ || path == "/mirror/activate"@
        || path == "/mirror/pause"@ || path == "/mirror/resume"@ || path == "/mirror/destroy"@
}

/// Whether a request to `path` needs the internal token.
pub fn needs_token(path: &str) -> (r: bool)
    ensures
        r == admin_endpoint(path@),
{
    str_eq(path, "/mirror/create") || str_eq(path, "/mirror/create-standby") || str_eq(path, "/mirror/activate")
        || str_eq(path, "/mirror/pause") || str_eq(path, "/mirror/resume") || str_eq(path, "/mirror/destroy")
}

/// Whether a request carries the internal token: the header is there and
/// equals the token of the administrator password.
pub fn token_valid(provided: Option<&str>) -> (r: bool)
    ensures
        r == (provided matches Some(p) && p@ == hex(crate::admin::default_hash(ADMIN_PASSWORD@) as nat)),
{
    match provided {
        Some(p) => {
            let expected = generate_auth_token(ADMIN_PASSWORD);
            str_eq(p, expected.as_str())
        },
        None => false,
    }
}

/// What the orchestrator does with a request.
#[derive(Debug, Clone, Copy, PartialEq, Eq, Structural)]
pub enum ApiRoute {
    Health,
    Stats,
    Mirrors,
    MirrorsAll,
    MirrorsExtended,
    Status,
    Create,
    CreateStandby,
    Activate,
    Pause,
    Resume,
    Destroy,
    /// Refused: an endpoint that needs the token, without it.
    Unauthorized,
    /// Anything else goes on to the CAPTCHA gateway (or gets the
    /// maintenance page on a paused mirror).
    Forward,
}

/// The route of a request by method and path, once the token is checked.
pub open spec fn route_spec(method: Seq<char>, path: Seq<char>, token_ok: bool) -> ApiRoute {
    if admin_endpoint(path) && !token_ok { ApiRoute::Unauthorized }
    else if method == "GET"@ && path == "/health"@ { ApiRoute::Health }
    else if method == "GET"@ && path == "/stats"@ { ApiRoute::Stats }
    else if method == "GET"@ && path == "/mirrors"@ { ApiRoute::Mirrors }
    else if method == "GET"@ && path == "/mirrors/all"@ { ApiRoute::MirrorsAll }
    else if method == "GET"@ && path == "/mirrors/extended"@ { ApiRoute::MirrorsExtended }
    else if method == "GET"@ && path == "/status"@ { ApiRoute::Status }
    else if method == "POST"@ && path == "/mirror/create"@ { ApiRoute::Create }
    else if method == "POST"@ && path == "/mirror/create-standby"@ { ApiRoute::CreateStandby }
    else if method == "POST"@ && path == "/mirror/activate"@ { ApiRoute::Activate }
    else if method == "POST"@ && path == "/mirror/pause"@ { ApiRoute::Pause }
    else if method == "POST"@ && path == "/mirror/resume"@ { ApiRoute::Resume }
    else if method == "POST"@ && path == "/mirror/destroy"@ { ApiRoute::Destroy }
    else { ApiRoute::Forward }
}

/// Routes a request by its method, its path and whether it carries the
/// internal token.
pub fn route_request(method: &str, path: &str, token_ok: bool) -> (r: ApiRoute)
    ensures
        r == route_spec(method@, path@, token_ok),
{
    if needs_token(path) && !token_ok { return ApiRoute::Unauthorized; }
    let get = str_eq(method, "GET");
    let post = str_eq(method, "POST");
    if get && str_eq(path, "/health") { ApiRoute::Health }
    else if get && str_eq(path, "/stats") { ApiRoute::Stats }
    else if get && str_eq(path, "/mirrors") { ApiRoute::Mirrors }
    else if get && str_eq(path, "/mirrors/all") { ApiRoute::MirrorsAll }
    else if get && str_eq(path, "/mirrors/extended") { ApiRoute::MirrorsExtended }
    else if get && str_eq(path, "/status") { ApiRoute::Status }
    else if post && str_eq(path, "/mirror/create") { ApiRoute::Create }
    else if post && str_eq(path, "/mirror/create-standby") { ApiRoute::CreateStandby }
    else if post && str_eq(path, "/mirror/activate") { ApiRoute::Activate }
    else if post && str_eq(path, "/mirror/pause") { ApiRoute::Pause }
    else if post && str_eq(path, "/mirror/resume") { ApiRoute::Resume }
    else if post && str_eq(path, "/mirror/destroy") { ApiRoute::Destroy }
    else { ApiRoute::Forward }
}

/// Whether a forwarded request is for a paused mirror: its host names an
/// onion address that belongs to a paused mirror.
pub fn serves_paused_page(host: &str, registry: &MirrorRegistry) -> (r: bool)
    ensures
        r == (has_infix(host@, ".onion"@) && (crate::registry::first_onion(registry@, host@) matches Some(i)
            && registry@[i].state == crate::mirror::MirrorState::Paused)),
{
    contains_str(host, ".onion") && registry.is_mirror_paused(host)
}

/// Why a mirror request's body was refused.
#[derive(Debug, Clone, Copy, PartialEq, Eq, Structural)]
pub enum BodyError {
    /// The body is not JSON.
    InvalidJson,
    /// The body has no string `onion_address`.
    MissingOnionAddress,
}

impl BodyError {
    /// The text of the refusal.
    pub fn message(&self) -> (r: &'static str)
        ensures
            r@ == match *self {
                BodyError::InvalidJson => "Invalid JSON"@,
                BodyError::MissingOnionAddress => "Missing onion_address"@,
            },
    {
        match self {
            BodyError::InvalidJson => "Invalid JSON",
            BodyError::MissingOnionAddress => "Missing onion_address",
        }
    }
}

/// What the body of a mirror request, read as JSON, gives: its onion
/// address, or why it has none.
pub open spec fn body_outcome(parsed: Option<Option<Seq<char>>>) -> Result<Seq<char>, BodyError> {
    match parsed {
        None => Err(BodyError::InvalidJson),
        Some(None) => Err(BodyError::MissingOnionAddress),
        Some(Some(a)) => Ok(a),
    }
}

/// The onion address that the body of a mirror request names.
pub fn onion_address_of_body(body: &[u8]) -> (r: Result<String, BodyError>)
    ensures
        match (r, body_outcome(json_str_field(body@, "onion_address"@))) {
            (Ok(s), Ok(a)) => s@ == a,
            (Err(e), Err(f)) => e == f,
            _ => false,
        },
{
    match read_json_str_field(body, "onion_address") {
        None => Err(BodyError::InvalidJson),
        Some(None) => Err(BodyError::MissingOnionAddress),
        Some(Some(s)) => Ok(s),
    }
}

/// The list items of the maintenance page: a link to each active mirror,
/// marked when it has proof-of-work defences, or a notice when none is active.
pub open spec fn mirror_list_items(ms: Seq<MirrorInfo>) -> Seq<char> {
    let active = ms.filter(|m: MirrorInfo| m.status@ == "active"@);
    if active.len() == 0 {
        "<li class=\"no-mirrors\">No active mirrors available at this time</li>"@
    } else {
        joined_items(active)
    }
}

/// One list item per mirror, separated by a line break and indentation.
pub open spec fn joined_items(ms: Seq<MirrorInfo>) -> Seq<char>
    decreases ms.len(),
{
    if ms.len() == 0 {
        Seq::empty()
    } else if ms.len() == 1 {
        item(ms[0])
    } else {
        joined_items(ms.drop_last()) + "\n                "@ + item(ms.last())
    }
}

/// The list item of one mirror.
pub open spec fn item(m: MirrorInfo) -> Seq<char> {
    "<li><a href=\"http://"@ + m.onion_address@ + "\">"@ + m.onion_address@
        + (if m.pow_enabled { "<span class=\"pow-badge\">PoW</span>"@ } else { Seq::empty() }) + "</a></li>"@
}

fn item_of(m: &MirrorInfo) -> (r: String)
    ensures
        r@ == item(*m),
{
    let mut s = concat_str("<li><a href=\"http://", m.onion_address.as_str());
    s.append("\">");
    s.append(m.onion_address.as_str());
    if m.pow_enabled {
        s.append("<span class=\"pow-badge\">PoW</span>");
    }
    s.append("</a></li>");
    s
}

/// The list items of the maintenance page for these mirrors.
pub fn mirror_list_html(ms: &Vec<MirrorInfo>) -> (r: String)
    ensures
        r@ == mirror_list_items(ms@),
{
    let ghost pred = |m: MirrorInfo| m.status@ == "active"@;
    let mut out = String::new();
    let mut count: usize = 0;
    let mut i: usize = 0;
    proof {
        reveal_with_fuel(Seq::filter, 1);
        assert(ms@.take(0) =~= Seq::<MirrorInfo>::empty());
        assert(out@ =~= joined_items(Seq::<MirrorInfo>::empty()));
    }
    while i < ms.len()
        invariant
            i <= ms@.len(),
            count == ms@.take(i as int).filter(pred).len(),
            out@ == joined_items(ms@.take(i as int).filter(pred)),
            pred == (|m: MirrorInfo| m.status@ == "active"@),
        decreases ms@.len() - i,
    {
        let m = &ms[i];
        let ghost before = ms@.take(i as int).filter(pred);
        proof {
            reveal_with_fuel(Seq::filter, 1);
            assert(ms@.take(i + 1).drop_last() =~= ms@.take(i as int));
            assert(ms@.take(i + 1).last() == *m);
        }
        if str_eq(m.status.as_str(), "active") {
            let it = item_of(m);
            proof {
                let after = before.push(*m);
                assert(after.drop_last() =~= before);
                assert(ms@.take(i + 1).filter(pred) == after);
            }
            if count > 0 {
                out.append("\n                ");
            }
            out.append(it.as_str());
            count = count + 1;
        }
        i = i + 1;
    }
    proof {
        assert(ms@.take(ms@.len() as int) =~= ms@);
    }
    if count == 0 {
        owned("<li class=\"no-mirrors\">No active mirrors available at this time</li>")
    } else {
        out
    }
}

/// The mirror counts of the extended listing: active, standby, and with
/// proof-of-work defences.
pub open spec fn listing_counts(ms: Seq<MirrorInfo>) -> (nat, nat, nat) {
    (
        ms.filter(|m: MirrorInfo| m.status@ == "active"@).len(),
        ms.filter(|m: MirrorInfo| m.is_standby).len(),
        ms.filter(|m: MirrorInfo| m.pow_enabled).len(),
    )
}

/// Counts the active, standby and proof-of-work mirrors of a listing.
pub fn count_listing(ms: &Vec<MirrorInfo>) -> (r: (usize, usize, usize))
    ensures
        (r.0 as nat, r.1 as nat, r.2 as nat) == listing_counts(ms@),
{
    let mut a: usize = 0;
    let mut s: usize = 0;
    let mut p: usize = 0;
    let mut i: usize = 0;
    proof {
        reveal_with_fuel(Seq::filter, 1);
        assert(ms@.take(0) =~= Seq::<MirrorInfo>::empty());
    }
    while i < ms.len()
        invariant
            i <= ms@.len(),
            a <= i && s <= i && p <= i,
            (a as nat, s as nat, p as nat) == listing_counts(ms@.take(i as int)),
        decreases ms@.len() - i,
    {
        let m = &ms[i];
        proof {
            reveal_with_fuel(Seq::filter, 1);
            assert(ms@.take(i + 1).drop_last() =~= ms@.take(i as int));
            assert(ms@.take(i + 1).last() == *m);
        }
        if str_eq(m.status.as_str(), "active") { a = a + 1; }
        if m.is_standby { s = s + 1; }
        if m.pow_enabled { p = p + 1; }
        i = i + 1;
    }
    proof {
        assert(ms@.take(ms@.len() as int) =~= ms@);
    }
    (a, s, p)
}

/// The mirror counts of the statistics endpoint: active mirrors that are
/// not standbys, and standbys.
pub fn stats_mirror_counts(ms: &Vec<MirrorInfo>) -> (r: (usize, usize))
    ensures
        r.0 == ms@.filter(|m: MirrorInfo| m.status@ == "active"@ && !m.is_standby).len(),
        r.1 == ms@.filter(|m: MirrorInfo| m.is_standby).len(),
{
    let mut a: usize = 0;
    let mut s: usize = 0;
    let mut i: usize = 0;
    proof {
        reveal_with_fuel(Seq::filter, 1);
        assert(ms@.take(0) =~= Seq::<MirrorInfo>::empty());
    }
    while i < ms.len()
        invariant
            i <= ms@.len(),
            a <= i && s <= i,
            a == ms@.take(i as int).filter(|m: MirrorInfo| m.status@ == "active"@ && !m.is_standby).len(),
            s == ms@.take(i as int).filter(|m: MirrorInfo| m.is_standby).len(),
        decreases ms@.len() - i,
    {
        let m = &ms[i];
        proof {
            reveal_with_fuel(Seq::filter, 1);
            assert(ms@.take(i + 1).drop_last() =~= ms@.take(i as int));
            assert(ms@.take(i + 1).last() == *m);
        }
        if str_eq(m.status.as_str(), "active") && !m.is_standby { a = a + 1; }
        if m.is_standby { s = s + 1; }
        i = i + 1;
    }
    proof {
        assert(ms@.take(ms@.len() as int) =~= ms@);
    }
    (a, s)
}

/// The status of the health answer: 503 while no mirror is active, else 200.
pub fn health_status(active_mirrors: usize) -> (r: u16)
    ensures
        r == if active_mirrors == 0 { 503u16 } else { 200u16 },
{
    if active_mirrors == 0 { 503 } else { 200 }
}

/// The status listed for the first entry at `onion`, in a listing of
/// (onion address, status) pairs.
pub open spec fn listed_status_from(entries: Seq<(String, String)>, onion: Seq<char>, k: int) -> Option<Seq<char>>
    decreases entries.len() - k,
{
    if k < 0 || k >= entries.len() {
        None
    } else if entries[k].0@ == onion {
        Some(entries[k].1@)
    } else {
        listed_status_from(entries, onion, k + 1)
    }
}

/// Whether a listing of (onion address, status) pairs shows the mirror at
/// `onion` as paused: its first entry says "paused"; a mirror not listed is not.
pub fn listed_as_paused(entries: &Vec<(String, String)>, onion: &str) -> (r: bool)
    ensures
        r == (listed_status_from(entries@, onion@, 0) == Some("paused"@)),
{
    let mut i: usize = 0;
    while i < entries.len()
        invariant
            i <= entries@.len(),
            listed_status_from(entries@, onion@, 0) == listed_status_from(entries@, onion@, i as int),
        decreases entries@.len() - i,
    {
        if str_eq(entries[i].0.as_str(), onion) {
            return str_eq(entries[i].1.as_str(), "paused");
        }
        i = i + 1;
    }
    false
}

} // verus!
