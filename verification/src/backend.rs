//! Backend nodes, request metrics and the backpressure limit of the proxy.

use vstd::prelude::*;
use crate::text::{chars_of, push_char, str_eq};

verus! {

/// Why the proxy refused or failed a request.
#[derive(Debug, Clone, Copy, PartialEq, Eq, Structural)]
pub enum ProxyError {
    InvalidToken,
    TokenExpired,
    MissingToken,
    SessionNotFound,
    BackpressureExceeded,
    BackendUnavailable,
    Forbidden,
}

/// The human-readable message of each error.
pub open spec fn proxy_error_message(e: ProxyError) -> Seq<char> {
    match e {
        ProxyError::InvalidToken => "Invalid token"@,
        ProxyError::TokenExpired => "Token expired"@,
        ProxyError::MissingToken => "Missing token"@,
        ProxyError::SessionNotFound => "Session not found"@,
        ProxyError::BackpressureExceeded => "Backpressure limit exceeded"@,
        ProxyError::BackendUnavailable => "Backend unavailable"@,
        ProxyError::Forbidden => "Request forbidden"@,
    }
}

impl ProxyError {
    /// The error's message.
    pub fn message(&self) -> (m: &'static str)
        ensures
            m@ == proxy_error_message(*self),
    {
        proof {
            reveal_strlit("Invalid token");
            reveal_strlit("Token expired");
            reveal_strlit("Missing token");
            reveal_strlit("Session not found");
            reveal_strlit("Backpressure limit exceeded");
            reveal_strlit("Backend unavailable");
            reveal_strlit("Request forbidden");
        }
        match self {
            ProxyError::InvalidToken => "Invalid token",
            ProxyError::TokenExpired => "Token expired",
            ProxyError::MissingToken => "Missing token",
            ProxyError::SessionNotFound => "Session not found",
            ProxyError::BackpressureExceeded => "Backpressure limit exceeded",
            ProxyError::BackendUnavailable => "Backend unavailable",
            ProxyError::Forbidden => "Request forbidden",
        }
    }
}

/// The default node name for an address: every ':' and '.' becomes '-'.
pub open spec fn name_from_address(a: Seq<char>) -> Seq<char> {
    a.map_values(|c: char| if c == ':' || c == '.' { '-' } else { c })
}

/// A backend node with a connection budget.
#[derive(Debug, Clone)]
pub struct BackendNode {
    /// Unique node identifier (e.g. "healthy-0").
    pub name: String,
    pub address: String,
    pub healthy_mode: bool,
    pub weight: u32,
    /// Connections currently held.
    pub active_connections: usize,
    pub max_connections: usize,
}

fn dash_name(address: &str) -> (r: String)
    ensures
        r@ == name_from_address(address@),
{
    let v = chars_of(address);
    let mut r = String::new();
    let mut i: usize = 0;
    while i < v.len()
        invariant
            i <= v@.len(),
            v@ == address@,
            r@ == name_from_address(v@.take(i as int)),
        decreases v@.len() - i,
    {
        let c = v[i];
        let d = if c == ':' || c == '.' { '-' } else { c };
        push_char(&mut r, d);
        proof {
            assert(name_from_address(v@.take(i + 1)) =~= name_from_address(v@.take(i as int)).push(d));
        }
        i = i + 1;
    }
    proof {
        assert(v@.take(v@.len() as int) =~= v@);
    }
    r
}

impl BackendNode {
    /// A node named after its address, with weight 1 and no connections.
    pub fn new(address: String, healthy_mode: bool, max_connections: usize) -> (n: Self)
        ensures
            n.name@ == name_from_address(address@),
            n.address == address,
            n.healthy_mode == healthy_mode,
            n.weight == 1,
            n.active_connections == 0,
            n.max_connections == max_connections,
    {
        let name = dash_name(address.as_str());
        BackendNode { name, address, healthy_mode, weight: 1, active_connections: 0, max_connections }
    }

    /// A node with an explicit name, weight 1 and no connections.
    pub fn with_name(name: String, address: String, healthy_mode: bool, max_connections: usize) -> (n: Self)
        ensures
            n.name == name,
            n.address == address,
            n.healthy_mode == healthy_mode,
            n.weight == 1,
            n.active_connections == 0,
            n.max_connections == max_connections,
    {
        BackendNode { name, address, healthy_mode, weight: 1, active_connections: 0, max_connections }
    }

    /// Whether one more connection fits.
    pub fn can_accept(&self) -> (r: bool)
        ensures
            r == (self.active_connections < self.max_connections),
    {
        self.active_connections < self.max_connections
    }

    /// Takes a connection slot if one is free.
    pub fn acquire(&mut self) -> (r: bool)
        ensures
            r == (old(self).active_connections < old(self).max_connections),
            final(self).active_connections == if r { old(self).active_connections + 1 } else { old(self).active_connections as int },
            final(self).name == old(self).name,
            final(self).address == old(self).address,
            final(self).healthy_mode == old(self).healthy_mode,
            final(self).weight == old(self).weight,
            final(self).max_connections == old(self).max_connections,
    {
        if self.active_connections < self.max_connections {
            self.active_connections = self.active_connections + 1;
            true
        } else {
            false
        }
    }

    /// Gives a connection slot back (never below zero).
    pub fn release(&mut self)
        ensures
            final(self).active_connections == if old(self).active_connections > 0 {
                old(self).active_connections - 1
            } else {
                0
            },
            final(self).name == old(self).name,
            final(self).address == old(self).address,
            final(self).healthy_mode == old(self).healthy_mode,
            final(self).weight == old(self).weight,
            final(self).max_connections == old(self).max_connections,
    {
        if self.active_connections > 0 {
            self.active_connections = self.active_connections - 1;
        }
    }
}

/// A node never holds more connections than its budget, whatever mix of
/// acquire and release it sees; a successful acquire is undone by a release.
pub proof fn law_node_capacity(before: BackendNode, after_acquire: BackendNode, after_release: BackendNode, acquired: bool)
    requires
        before.active_connections <= before.max_connections,
        acquired == (before.active_connections < before.max_connections),
        after_acquire.active_connections == if acquired { before.active_connections + 1 } else { before.active_connections as int },
        after_acquire.max_connections == before.max_connections,
        after_release.active_connections == if after_acquire.active_connections > 0 {
            after_acquire.active_connections - 1
        } else {
            0
        },
    ensures
        after_acquire.active_connections <= after_acquire.max_connections,
        after_release.active_connections <= after_acquire.max_connections,
        acquired ==> after_release.active_connections == before.active_connections,
{
}

/// Request counters of the proxy.
#[derive(Debug, Clone, Copy, PartialEq, Eq, Structural)]
pub struct Metrics {
    pub requests_total: u64,
    pub requests_allowed: u64,
    pub requests_denied: u64,
    pub tokens_valid: u64,
    pub tokens_invalid: u64,
    pub backend_errors: u64,
}

impl Metrics {
    /// All counters at zero.
    pub fn new() -> (m: Self)
        ensures
            m == (Metrics { requests_total: 0, requests_allowed: 0, requests_denied: 0, tokens_valid: 0, tokens_invalid: 0, backend_errors: 0 }),
    {
        Metrics { requests_total: 0, requests_allowed: 0, requests_denied: 0, tokens_valid: 0, tokens_invalid: 0, backend_errors: 0 }
    }

    /// Counts a request.
    pub fn record_request(&mut self)
        requires
            old(self).requests_total < u64::MAX,
        ensures
            *final(self) == (Metrics { requests_total: (old(self).requests_total + 1) as u64, ..*old(self) }),
    {
        self.requests_total = self.requests_total + 1;
    }

    /// Counts a request let through to a backend.
    pub fn record_allowed(&mut self)
        requires
            old(self).requests_allowed < u64::MAX,
        ensures
            *final(self) == (Metrics { requests_allowed: (old(self).requests_allowed + 1) as u64, ..*old(self) }),
    {
        self.requests_allowed = self.requests_allowed + 1;
    }

    /// Counts a refused request.
    pub fn record_denied(&mut self)
        requires
            old(self).requests_denied < u64::MAX,
        ensures
            *final(self) == (Metrics { requests_denied: (old(self).requests_denied + 1) as u64, ..*old(self) }),
    {
        self.requests_denied = self.requests_denied + 1;
    }

    /// Counts a valid session token.
    pub fn record_valid_token(&mut self)
        requires
            old(self).tokens_valid < u64::MAX,
        ensures
            *final(self) == (Metrics { tokens_valid: (old(self).tokens_valid + 1) as u64, ..*old(self) }),
    {
        self.tokens_valid = self.tokens_valid + 1;
    }

    /// Counts an invalid session token.
    pub fn record_invalid_token(&mut self)
        requires
            old(self).tokens_invalid < u64::MAX,
        ensures
            *final(self) == (Metrics { tokens_invalid: (old(self).tokens_invalid + 1) as u64, ..*old(self) }),
    {
        self.tokens_invalid = self.tokens_invalid + 1;
    }

    /// Counts a failed backend call.
    pub fn record_backend_error(&mut self)
        requires
            old(self).backend_errors < u64::MAX,
        ensures
            *final(self) == (Metrics { backend_errors: (old(self).backend_errors + 1) as u64, ..*old(self) }),
    {
        self.backend_errors = self.backend_errors + 1;
    }
}

impl Default for Metrics {
    fn default() -> (m: Self)
        ensures
            m == (Metrics { requests_total: 0, requests_allowed: 0, requests_denied: 0, tokens_valid: 0, tokens_invalid: 0, backend_errors: 0 }),
    {
        Metrics::new()
    }
}

/// A request slot taken from a `BackpressureController`. It is handed back
/// with `release` once the request is done.
#[derive(Debug, PartialEq, Eq)]
pub struct RequestGuard {
    taken: (),
}

impl RequestGuard {
    /// Gives the slot back to the controller it came from.
    pub fn release(self, controller: &mut BackpressureController)
        ensures
            final(controller).active_requests == if old(controller).active_requests > 0 {
                old(controller).active_requests - 1
            } else {
                0
            },
            final(controller).max_concurrent == old(controller).max_concurrent,
    {
        controller.release();
    }
}

/// Bounds the number of requests in flight.
pub struct BackpressureController {
    pub max_concurrent: usize,
    pub active_requests: usize,
    /// Reserved for queueing; kept in seconds.
    pub queue_wait_timeout_secs: u64,
}

impl BackpressureController {
    /// A controller with no request in flight.
    pub fn new(max_concurrent: usize, queue_wait_timeout_secs: u64) -> (c: Self)
        ensures
            c.max_concurrent == max_concurrent,
            c.active_requests == 0,
            c.queue_wait_timeout_secs == queue_wait_timeout_secs,
    {
        BackpressureController { max_concurrent, active_requests: 0, queue_wait_timeout_secs }
    }

    /// Takes a request slot, or refuses when all are in use.
    pub fn try_acquire(&mut self) -> (r: Result<RequestGuard, ProxyError>)
        ensures
            old(self).active_requests >= old(self).max_concurrent ==> r == Err::<RequestGuard, ProxyError>(ProxyError::BackpressureExceeded)
                && final(self).active_requests == old(self).active_requests,
            old(self).active_requests < old(self).max_concurrent ==> r is Ok
                && final(self).active_requests == old(self).active_requests + 1,
            final(self).max_concurrent == old(self).max_concurrent,
            final(self).queue_wait_timeout_secs == old(self).queue_wait_timeout_secs,
    {
        if self.active_requests >= self.max_concurrent {
            return Err(ProxyError::BackpressureExceeded);
        }
        self.active_requests = self.active_requests + 1;
        Ok(RequestGuard { taken: () })
    }

    /// Gives a slot back (never below zero).
    pub fn release(&mut self)
        ensures
            final(self).active_requests == if old(self).active_requests > 0 {
                old(self).active_requests - 1
            } else {
                0
            },
            final(self).max_concurrent == old(self).max_concurrent,
            final(self).queue_wait_timeout_secs == old(self).queue_wait_timeout_secs,
    {
        if self.active_requests > 0 {
            self.active_requests = self.active_requests - 1;
        }
    }

    /// Requests in flight.
    pub fn active_count(&self) -> (n: usize)
        ensures
            n == self.active_requests,
    {
        self.active_requests
    }

    /// Free slots.
    pub fn available_capacity(&self) -> (n: usize)
        ensures
            n == if self.max_concurrent >= self.active_requests {
                self.max_concurrent - self.active_requests
            } else {
                0
            },
    {
        if self.max_concurrent >= self.active_requests { self.max_concurrent - self.active_requests } else { 0 }
    }

    /// Whether no slot is free.
    pub fn is_at_capacity(&self) -> (r: bool)
        ensures
            r == (self.active_requests >= self.max_concurrent),
    {
        self.available_capacity() == 0
    }
}


/// Headers that describe one connection and are not passed on by a proxy.
pub open spec fn hop_by_hop(name: Seq<char>) -> bool {
    name == "connection"@ || name == "keep-alive"@ || name == "proxy-authenticate"@
        || name == "proxy-authorization"@ || name == "te"@ || name == "trailers"@
        || name == "transfer-encoding"@ || name == "upgrade"@ || name == "host"@
}

/// Whether a (lower-case) header name is hop-by-hop.
pub fn is_hop_by_hop_header(name: &str) -> (r: bool)
    ensures
        r == hop_by_hop(name@),
{
    str_eq(name, "connection") || str_eq(name, "keep-alive") || str_eq(name, "proxy-authenticate")
        || str_eq(name, "proxy-authorization") || str_eq(name, "te") || str_eq(name, "trailers")
        || str_eq(name, "transfer-encoding") || str_eq(name, "upgrade") || str_eq(name, "host")
}

/// The methods a request can be passed on with.
#[derive(Debug, Clone, Copy, PartialEq, Eq, Structural)]
pub enum HttpMethod {
    Get,
    Post,
    Put,
    Delete,
    Head,
    Options,
    Patch,
}

/// The method a request is passed on with: its own when it is one of the
/// seven known ones, GET otherwise.
pub open spec fn method_of(m: Seq<char>) -> HttpMethod {
    if m == "POST"@ { HttpMethod::Post }
    else if m == "PUT"@ { HttpMethod::Put }
    else if m == "DELETE"@ { HttpMethod::Delete }
    else if m == "HEAD"@ { HttpMethod::Head }
    else if m == "OPTIONS"@ { HttpMethod::Options }
    else if m == "PATCH"@ { HttpMethod::Patch }
    else { HttpMethod::Get }
}

/// Maps a request method to the one it is passed on with.
pub fn proxied_method(method: &str) -> (r: HttpMethod)
    ensures
        r == method_of(method@),
{
    if str_eq(method, "POST") { HttpMethod::Post }
    else if str_eq(method, "PUT") { HttpMethod::Put }
    else if str_eq(method, "DELETE") { HttpMethod::Delete }
    else if str_eq(method, "HEAD") { HttpMethod::Head }
    else if str_eq(method, "OPTIONS") { HttpMethod::Options }
    else if str_eq(method, "PATCH") { HttpMethod::Patch }
    else { HttpMethod::Get }
}

/// The address a request goes to on a backend: the node's address followed
/// by the path and query, "/" when there is none.
pub fn backend_request_url(node_address: &str, path_and_query: Option<&str>) -> (r: String)
    ensures
        r@ == node_address@ + match path_and_query { Some(p) => p@, None => "/"@ },
{
    match path_and_query {
        Some(p) => crate::text::concat_str(node_address, p),
        None => crate::text::concat_str(node_address, "/"),
    }
}

/// The request headers passed on to a backend: those whose lower-cased name
/// is not hop-by-hop and whose value is text, in order.
pub open spec fn passed_headers(hs: Seq<(Seq<char>, Option<Seq<char>>)>) -> Seq<(Seq<char>, Seq<char>)>
    decreases hs.len(),
{
    if hs.len() == 0 {
        Seq::empty()
    } else {
        let rest = passed_headers(hs.drop_last());
        let h = hs.last();
        if !hop_by_hop(crate::tier::lowercase(h.0)) && h.1 is Some { rest.push((h.0, h.1->0)) } else { rest }
    }
}

/// The views of a list of headers.
pub open spec fn header_views(hs: Seq<(String, Option<String>)>) -> Seq<(Seq<char>, Option<Seq<char>>)> {
    hs.map_values(|h: (String, Option<String>)| (h.0@, match h.1 { Some(v) => Some(v@), None => None }))
}

/// Picks the request headers to pass on to a backend; a header whose value
/// is not text comes with no value.
pub fn forwarded_headers(headers: &Vec<(String, Option<String>)>) -> (r: Vec<(String, String)>)
    ensures
        r@.map_values(|h: (String, String)| (h.0@, h.1@)) == passed_headers(header_views(headers@)),
{
    let ghost hv = header_views(headers@);
    let mut r: Vec<(String, String)> = Vec::new();
    let mut i: usize = 0;
    proof {
        assert(hv.take(0) =~= Seq::<(Seq<char>, Option<Seq<char>>)>::empty());
        assert(r@.map_values(|h: (String, String)| (h.0@, h.1@)) =~= Seq::<(Seq<char>, Seq<char>)>::empty());
    }
    while i < headers.len()
        invariant
            hv == header_views(headers@),
            i <= headers@.len(),
            r@.map_values(|h: (String, String)| (h.0@, h.1@)) == passed_headers(hv.take(i as int)),
        decreases headers@.len() - i,
    {
        let (name, value) = &headers[i];
        let ghost before = r@;
        proof {
            assert(hv.take(i + 1).drop_last() =~= hv.take(i as int));
            assert(hv.take(i + 1).last() == hv[i as int]);
        }
        let lower = crate::tier::to_lowercase(name.as_str());
        if !is_hop_by_hop_header(lower.as_str()) {
            match value {
                Some(v) => {
                    let pair = (name.clone(), v.clone());
                    r.push(pair);
                    proof {
                        assert(r@.map_values(|h: (String, String)| (h.0@, h.1@))
                            =~= before.map_values(|h: (String, String)| (h.0@, h.1@)).push((name@, v@)));
                    }
                },
                None => {},
            }
        }
        i = i + 1;
    }
    proof {
        assert(hv.take(headers@.len() as int) =~= hv);
    }
    r
}

/// The views of a list of named values.
pub open spec fn pair_views(hs: Seq<(String, String)>) -> Seq<(Seq<char>, Seq<char>)> {
    hs.map_values(|h: (String, String)| (h.0@, h.1@))
}

/// Whether some header's lower-cased name is `lower`.
pub open spec fn has_named(hs: Seq<(Seq<char>, Seq<char>)>, lower: Seq<char>) -> bool
    decreases hs.len(),
{
    hs.len() > 0 && (has_named(hs.drop_last(), lower) || crate::tier::lowercase(hs.last().0) == lower)
}

/// The headers whose lower-cased name is not `lower`, in order.
pub open spec fn without_named(hs: Seq<(Seq<char>, Seq<char>)>, lower: Seq<char>) -> Seq<(Seq<char>, Seq<char>)>
    decreases hs.len(),
{
    if hs.len() == 0 {
        hs
    } else {
        let rest = without_named(hs.drop_last(), lower);
        if crate::tier::lowercase(hs.last().0) == lower { rest } else { rest.push(hs.last()) }
    }
}

/// The cookie that ends a client's session.
pub open spec fn session_clearing_cookie() -> (Seq<char>, Seq<char>) {
    ("Set-Cookie"@, "fortify_session=; Path=/; Max-Age=0; HttpOnly"@)
}

/// A backend answer's headers as passed to the client: when the node flagged
/// the session for demotion (an `X-Fortify-Demote` header), that flag is
/// removed and, unless the answer already sets a cookie, the session cookie
/// is cleared.
pub open spec fn demote_handled(hs: Seq<(Seq<char>, Seq<char>)>) -> Seq<(Seq<char>, Seq<char>)> {
    if !has_named(hs, "x-fortify-demote"@) {
        hs
    } else {
        let kept = without_named(hs, "x-fortify-demote"@);
        if has_named(kept, "set-cookie"@) { kept } else { kept.push(session_clearing_cookie()) }
    }
}

/// Applies a node's demotion flag to the headers of its answer.
pub fn answer_headers(headers: &Vec<(String, String)>) -> (r: Vec<(String, String)>)
    ensures
        pair_views(r@) == demote_handled(pair_views(headers@)),
{
    proof {
        reveal_strlit("x-fortify-demote");
        reveal_strlit("set-cookie");
    }
    let ghost hv = pair_views(headers@);
    let mut all: Vec<(String, String)> = Vec::new();
    let mut kept: Vec<(String, String)> = Vec::new();
    let mut demote = false;
    let mut cookie = false;
    let mut i: usize = 0;
    proof {
        assert(hv.take(0) =~= Seq::<(Seq<char>, Seq<char>)>::empty());
        assert(pair_views(all@) =~= Seq::<(Seq<char>, Seq<char>)>::empty());
        assert(pair_views(kept@) =~= Seq::<(Seq<char>, Seq<char>)>::empty());
    }
    while i < headers.len()
        invariant
            hv == pair_views(headers@),
            i <= headers@.len(),
            pair_views(all@) == hv.take(i as int),
            pair_views(kept@) == without_named(hv.take(i as int), "x-fortify-demote"@),
            demote == has_named(hv.take(i as int), "x-fortify-demote"@),
            cookie == has_named(without_named(hv.take(i as int), "x-fortify-demote"@), "set-cookie"@),
        decreases headers@.len() - i,
    {
        let (name, value) = &headers[i];
        let ghost a0 = all@;
        let ghost k0 = kept@;
        let ghost kv0 = pair_views(k0);
        proof {
            assert(hv.take(i + 1).drop_last() =~= hv.take(i as int));
            assert(hv.take(i + 1).last() == hv[i as int]);
            assert(hv[i as int] == (name@, value@));
        }
        let lower = crate::tier::to_lowercase(name.as_str());
        all.push((name.clone(), value.clone()));
        proof {
            assert(pair_views(all@) =~= pair_views(a0).push((name@, value@)));
            assert(pair_views(all@) =~= hv.take(i + 1));
        }
        if str_eq(lower.as_str(), "x-fortify-demote") {
            demote = true;
        } else {
            kept.push((name.clone(), value.clone()));
            proof {
                assert(pair_views(kept@) =~= kv0.push((name@, value@)));
                assert(pair_views(kept@).drop_last() =~= kv0);
            }
            if str_eq(lower.as_str(), "set-cookie") {
                cookie = true;
            }
        }
        i = i + 1;
    }
    proof {
        assert(hv.take(headers@.len() as int) =~= hv);
    }
    if !demote {
        return all;
    }
    if !cookie {
        let ghost k0 = pair_views(kept@);
        kept.push((crate::text::owned("Set-Cookie"), crate::text::owned("fortify_session=; Path=/; Max-Age=0; HttpOnly")));
        proof {
            assert(pair_views(kept@) =~= k0.push(session_clearing_cookie()));
        }
    }
    kept
}

} // verus!
