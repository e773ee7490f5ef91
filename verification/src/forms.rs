//! What the administration panel's forms ask for: the action a button
//! names, and the settings a settings form carries.

use vstd::prelude::*;
use crate::admin::{
    pool_size, AdminState, AdminView, BrandingConfig, CaptchaPoolConfig, MirrorInfo, NodeInfo, SessionInfo, override_set,
    sessions_updated, tier_set, banned_record, unbanned_record, panel_id, uuid_v4_at,
};
use crate::strmap::StrMap;
use crate::gateway::{cookie_pieces, cookie_value, first_with_prefix, ADMIN_PATH};
use crate::text::{owned, str_eq, starts_with, trim, trimmed, concat_str, parse_u64_max, parse_unsigned_spec, parse_usize, parse_usize_spec, u64_to_decimal, decimal};

verus! {

/// The text of a form field, if the form has it.
pub open spec fn field(params: Map<Seq<char>, String>, key: Seq<char>) -> Option<Seq<char>> {
    if params.contains_key(key) { Some(params[key]@) } else { None }
}

/// The text of a form field, or the empty text.
pub open spec fn field_or_empty(params: Map<Seq<char>, String>, key: Seq<char>) -> Seq<char> {
    match field(params, key) {
        Some(v) => v,
        None => Seq::empty(),
    }
}

/// The text of a form field, or the empty text when it is missing.
pub fn form_field(params: &StrMap<String>, key: &str) -> (r: String)
    requires
        params.wf(),
    ensures
        r@ == field_or_empty(params.map(), key@),
{
    match params.get(key) {
        Some(v) => v.clone(),
        None => String::new(),
    }
}

/// What a button on the sessions page asks for.
#[derive(Debug, Clone, Copy, PartialEq, Eq, Structural)]
pub enum SessionAction {
    /// Send the session to the threat pool.
    ToThreat,
    /// Send the session to the healthy pool and lift any ban.
    ToHealthy,
    Ban,
    Unban,
    Delete,
    /// Anything else: nothing happens.
    Unknown,
}

/// The action a session button's `action` field names.
pub open spec fn session_action_of(action: Seq<char>) -> SessionAction {
    if action == "to_threat"@ { SessionAction::ToThreat }
    else if action == "to_healthy"@ { SessionAction::ToHealthy }
    else if action == "ban"@ { SessionAction::Ban }
    else if action == "unban"@ { SessionAction::Unban }
    else if action == "delete"@ { SessionAction::Delete }
    else { SessionAction::Unknown }
}

/// Reads the `action` field of a session button.
pub fn session_action(action: &str) -> (r: SessionAction)
    ensures
        r == session_action_of(action@),
{
    if str_eq(action, "to_threat") { SessionAction::ToThreat }
    else if str_eq(action, "to_healthy") { SessionAction::ToHealthy }
    else if str_eq(action, "ban") { SessionAction::Ban }
    else if str_eq(action, "unban") { SessionAction::Unban }
    else if str_eq(action, "delete") { SessionAction::Delete }
    else { SessionAction::Unknown }
}

/// The panel after an administrator set session `sid` to `tier` at `now`.
pub open spec fn tier_step(a: AdminView, b: AdminView, sid: Seq<char>, tier: Seq<char>, now: u64) -> bool {
    &&& b == (AdminView { sessions: b.sessions, overrides: override_set(a, sid, tier), ..a })
    &&& sessions_updated(a.sessions, b.sessions, sid, |o: SessionInfo, n: SessionInfo| tier_set(o, n, tier, now))
}

/// The panel after session `sid` was banned at `now`.
pub open spec fn ban_step(a: AdminView, b: AdminView, sid: Seq<char>, now: u64) -> bool {
    &&& b == (AdminView {
        sessions: b.sessions,
        banned: if a.banned.contains(sid) { a.banned } else { a.banned.push(sid) },
        ..a
    })
    &&& sessions_updated(a.sessions, b.sessions, sid, |o: SessionInfo, n: SessionInfo| banned_record(o, n, now))
}

/// The panel after the ban of session `sid` was lifted at `now`.
pub open spec fn unban_step(a: AdminView, b: AdminView, sid: Seq<char>, now: u64) -> bool {
    &&& b == (AdminView { sessions: b.sessions, banned: a.banned.filter(|y: Seq<char>| y != sid), ..a })
    &&& sessions_updated(a.sessions, b.sessions, sid, |o: SessionInfo, n: SessionInfo| unbanned_record(o, n, now))
}

/// A ban shows at once, and lifting it clears it again while every other
/// session keeps the ban status it had before.
pub proof fn law_unban_undoes_ban(a: AdminView, b: AdminView, c: AdminView, sid: Seq<char>, t1: u64, t2: u64)
    requires
        ban_step(a, b, sid, t1),
        unban_step(b, c, sid, t2),
    ensures
        b.banned.contains(sid),
        !c.banned.contains(sid),
        forall|x: Seq<char>| x != sid ==> (#[trigger] c.banned.contains(x) == a.banned.contains(x)),
{
    broadcast use {vstd::seq_lib::group_filter_ensures, Seq::<_>::lemma_filter_contains_rev};
    if !a.banned.contains(sid) {
        assert(a.banned.push(sid)[a.banned.len() as int] == sid);
    }
    assert forall|x: Seq<char>| x != sid implies (#[trigger] c.banned.contains(x) == a.banned.contains(x)) by {
        if a.banned.contains(x) {
            let k = choose|k: int| 0 <= k < a.banned.len() && a.banned[k] == x;
            if !a.banned.contains(sid) {
                assert(a.banned.push(sid)[k] == x);
            }
            assert(b.banned[k] == x);
        }
        if c.banned.contains(x) {
            assert(b.banned.contains(x));
            let j = choose|j: int| 0 <= j < b.banned.len() && b.banned[j] == x;
            if !a.banned.contains(sid) && j < a.banned.len() {
                assert(a.banned[j] == x);
            }
        }
    }
}

/// After an administrator sets a session's tier, the panel reads that tier
/// back as the session's override.
pub proof fn law_tier_override_reads_back(a: AdminView, b: AdminView, sid: Seq<char>, tier: Seq<char>, now: u64)
    requires
        tier_step(a, b, sid, tier, now),
    ensures
        b.overrides.contains_key(sid),
        b.overrides[sid] == tier,
        forall|x: Seq<char>| x != sid ==> (#[trigger] b.overrides.contains_key(x) == a.overrides.contains_key(x)),
{
}

/// The panel after `action` on session `sid` at `now`.
pub open spec fn session_action_done(a: AdminView, b: AdminView, sid: Seq<char>, action: SessionAction, now: u64) -> bool {
    match action {
        SessionAction::ToThreat => tier_step(a, b, sid, "Suspicious"@, now),
        SessionAction::ToHealthy => exists|m: AdminView| #[trigger] tier_step(a, m, sid, "Verified"@, now) && unban_step(m, b, sid, now),
        SessionAction::Ban => ban_step(a, b, sid, now),
        SessionAction::Unban => unban_step(a, b, sid, now),
        SessionAction::Delete => b == (AdminView { sessions: a.sessions.remove(sid), ..a }),
        SessionAction::Unknown => b == a,
    }
}

impl AdminState {
    /// Carries out a session button's action at `now`.
    pub fn apply_session_action_at(&mut self, session_id: &str, action: SessionAction, now: u64)
        requires
            old(self).wf(),
        ensures
            final(self).wf(),
            session_action_done(old(self)@, final(self)@, session_id@, action, now),
    {
        match action {
            SessionAction::ToThreat => self.set_session_tier_at(session_id, "Suspicious", now),
            SessionAction::ToHealthy => {
                self.set_session_tier_at(session_id, "Verified", now);
                let ghost mid = self@;
                self.unban_session_at(session_id, now);
                proof {
                    assert(tier_step(old(self)@, mid, session_id@, "Verified"@, now));
                    assert(unban_step(mid, self@, session_id@, now));
                }
            },
            SessionAction::Ban => self.ban_session_at(session_id, now),
            SessionAction::Unban => self.unban_session_at(session_id, now),
            SessionAction::Delete => self.delete_session(session_id),
            SessionAction::Unknown => {},
        }
    }
}

/// What a button on the nodes page asks for.
#[derive(Debug, Clone, Copy, PartialEq, Eq, Structural)]
pub enum NodeFormAction {
    /// Move the node to the healthy pool.
    ToHealthy,
    /// Move the node to the threat pool, and send its sessions back to the CAPTCHA.
    ToThreat,
    Remove,
    /// Bring a pending node online.
    Activate,
    /// Register a new node from the form.
    Add,
    /// Anything else: nothing happens.
    Unknown,
}

/// The action a node button's `action` field names.
pub open spec fn node_action_of(action: Seq<char>) -> NodeFormAction {
    if action == "to_healthy"@ { NodeFormAction::ToHealthy }
    else if action == "to_threat"@ { NodeFormAction::ToThreat }
    else if action == "remove"@ { NodeFormAction::Remove }
    else if action == "activate"@ { NodeFormAction::Activate }
    else if action == "add"@ { NodeFormAction::Add }
    else { NodeFormAction::Unknown }
}

/// Reads the `action` field of a node button.
pub fn node_action(action: &str) -> (r: NodeFormAction)
    ensures
        r == node_action_of(action@),
{
    if str_eq(action, "to_healthy") { NodeFormAction::ToHealthy }
    else if str_eq(action, "to_threat") { NodeFormAction::ToThreat }
    else if str_eq(action, "remove") { NodeFormAction::Remove }
    else if str_eq(action, "activate") { NodeFormAction::Activate }
    else if str_eq(action, "add") { NodeFormAction::Add }
    else { NodeFormAction::Unknown }
}

/// The panel after node `id` was put in pool `mode` (when a pool is given)
/// and marked online. The record is stored back under its own id, as the
/// panel stores every node; nothing changes when there is no such node.
pub open spec fn node_online(a: AdminView, b: AdminView, id: Seq<char>, mode: Option<Seq<char>>) -> bool {
    if a.nodes.contains_key(id) {
        let o = a.nodes[id];
        let n = b.nodes[o.id@];
        &&& b == (AdminView { nodes: a.nodes.insert(id, NodeInfo { status: o.status, ..n }).insert(o.id@, n), ..a })
        &&& n == (NodeInfo { mode: n.mode, status: n.status, ..o })
        &&& n.status@ == "online"@
        &&& n.mode@ == match mode { Some(m) => m, None => o.mode@ }
        &&& mode is None ==> n.mode == o.mode
    } else {
        b == a
    }
}

/// The name of a node added from the form: the given name, or the pool name
/// with the pool's size.
pub open spec fn new_node_id(custom: Seq<char>, mode: Seq<char>, count: nat) -> Seq<char> {
    if custom.len() > 0 { custom } else { mode + "-"@ + decimal(count) }
}

/// The pool named by the form, healthy when none is.
pub open spec fn form_mode(params: Map<Seq<char>, String>) -> Seq<char> {
    match field(params, "mode"@) {
        Some(m) => m,
        None => "healthy"@,
    }
}

/// The onion address given in the form, trimmed, if it is not blank.
pub open spec fn form_onion(params: Map<Seq<char>, String>) -> Option<Seq<char>> {
    match field(params, "onion_address"@) {
        Some(o) => if trimmed(o).len() > 0 { Some(trimmed(o)) } else { None },
        None => None,
    }
}

impl AdminState {
    /// Marks node `node_id` online, first moving it to pool `mode` if one is
    /// given.
    pub fn bring_node_online(&mut self, node_id: &str, mode: Option<&str>)
        requires
            old(self).wf(),
        ensures
            final(self).wf(),
            node_online(old(self)@, final(self)@, node_id@, match mode { Some(m) => Some(m@), None => None }),
    {
        match mode {
            Some(m) => self.set_node_mode(node_id, m),
            None => {},
        }
        let ghost mid = self@;
        match self.get_node(node_id) {
            Some(n0) => {
                let mut n = n0;
                n.status = owned("online");
                self.update_node(n);
                proof {
                    let o = old(self)@.nodes[node_id@];
                    assert(mid.nodes[node_id@] == (NodeInfo { status: o.status, ..n }));
                    assert(self@.nodes[o.id@] == n);
                    assert(self@.nodes =~= old(self)@.nodes.insert(node_id@, NodeInfo { status: o.status, ..n }).insert(o.id@, n));
                }
            },
            None => {},
        }
    }
}

/// The node that the "add" form describes at `now`, given how many nodes
/// the chosen pool has; nothing when no address is given.
pub open spec fn node_of_form(params: Map<Seq<char>, String>, count: nat, now: u64, n: NodeInfo) -> bool {
    let mode = form_mode(params);
    let custom = match field(params, "node_name"@) { Some(c) => trimmed(c), None => Seq::empty() };
    &&& n.id@ == new_node_id(custom, mode, count)
    &&& n.bind_addr@ == field_or_empty(params, "bind_addr"@)
    &&& match n.onion_address { Some(o) => form_onion(params) == Some(o@), None => form_onion(params) is None }
    &&& n.mode@ == mode
    &&& n.status@ == "online"@
    &&& n.created_at == now
    &&& n.total_requests == 0
    &&& n.active_connections == 0
    &&& n.violations_detected == 0
}

/// The node to register from the "add" form at `now`: named as given, or
/// after its pool and the pool's size, and online at once; nothing when
/// the form gives no address.
pub fn node_from_form(params: &StrMap<String>, state: &AdminState, now: u64) -> (r: Option<NodeInfo>)
    requires
        params.wf(),
        state.wf(),
    ensures
        field_or_empty(params.map(), "bind_addr"@).len() == 0 ==> r is None,
        field_or_empty(params.map(), "bind_addr"@).len() > 0 ==> (r matches Some(n)
            && node_of_form(params.map(), pool_size(state.node_records(), form_mode(params.map())), now, n)),
{
    let bind = form_field(params, "bind_addr");
    if bind.as_str().unicode_len() == 0 {
        return None;
    }
    let onion = match params.get("onion_address") {
        Some(o) => {
            let t = trim(o.as_str());
            if t.as_str().unicode_len() == 0 { None } else { Some(t) }
        },
        None => None,
    };
    let mode = match params.get("mode") {
        Some(m) => m.clone(),
        None => owned("healthy"),
    };
    let custom = match params.get("node_name") {
        Some(c) => trim(c.as_str()),
        None => String::new(),
    };
    let id = if custom.as_str().unicode_len() > 0 {
        custom
    } else {
        let count = state.pool_count(mode.as_str());
        let mut id = concat_str(mode.as_str(), "-");
        id.append(u64_to_decimal(count as u64).as_str());
        id
    };
    let n = NodeInfo {
        id,
        bind_addr: bind,
        onion_address: onion,
        mode,
        status: owned("online"),
        created_at: now,
        total_requests: 0,
        active_connections: 0,
        violations_detected: 0,
    };
    Some(n)
}

/// What a button on the mirrors page asks for.
#[derive(Debug, Clone, Copy, PartialEq, Eq, Structural)]
pub enum MirrorFormAction {
    Pause,
    Resume,
    Destroy,
    /// Forget the mirror's record in the panel.
    Remove,
    Create,
    /// Turn a standby mirror into an active one.
    Activate,
    CreateStandby,
    /// Anything else: nothing happens.
    Unknown,
}

/// The action a mirror button's `action` field names.
pub open spec fn mirror_action_of(action: Seq<char>) -> MirrorFormAction {
    if action == "pause"@ { MirrorFormAction::Pause }
    else if action == "resume"@ { MirrorFormAction::Resume }
    else if action == "destroy"@ { MirrorFormAction::Destroy }
    else if action == "remove"@ { MirrorFormAction::Remove }
    else if action == "create"@ { MirrorFormAction::Create }
    else if action == "activate"@ { MirrorFormAction::Activate }
    else if action == "create_standby"@ { MirrorFormAction::CreateStandby }
    else { MirrorFormAction::Unknown }
}

/// Reads the `action` field of a mirror button.
pub fn mirror_action(action: &str) -> (r: MirrorFormAction)
    ensures
        r == mirror_action_of(action@),
{
    if str_eq(action, "pause") { MirrorFormAction::Pause }
    else if str_eq(action, "resume") { MirrorFormAction::Resume }
    else if str_eq(action, "destroy") { MirrorFormAction::Destroy }
    else if str_eq(action, "remove") { MirrorFormAction::Remove }
    else if str_eq(action, "create") { MirrorFormAction::Create }
    else if str_eq(action, "activate") { MirrorFormAction::Activate }
    else if str_eq(action, "create_standby") { MirrorFormAction::CreateStandby }
    else { MirrorFormAction::Unknown }
}

/// A request to the orchestrator's API that a mirror button makes. The
/// ports are tried in turn until one counts as done.
#[derive(Debug)]
pub struct OrchestratorCall {
    /// The API path, such as "/mirror/pause".
    pub path: String,
    /// Whether the body carries the mirror's onion address.
    pub send_onion: bool,
    /// Whether the request carries the internal auth token.
    pub send_token: bool,
    pub timeout_secs: u64,
    /// Whether only a success status counts as done (else any answer does).
    pub needs_success: bool,
    /// Whether the panel records a placeholder mirror when no port did it.
    pub placeholder_on_failure: bool,
}

/// The call a mirror button makes, as (path, onion, token, timeout,
/// success needed, placeholder), or nothing for buttons that make none.
pub open spec fn call_of(a: MirrorFormAction) -> Option<(Seq<char>, bool, bool, u64, bool, bool)> {
    match a {
        MirrorFormAction::Pause => Some(("/mirror/pause"@, true, true, 10u64, false, false)),
        MirrorFormAction::Resume => Some(("/mirror/resume"@, true, true, 10u64, false, false)),
        MirrorFormAction::Destroy => Some(("/mirror/destroy"@, true, true, 10u64, false, false)),
        MirrorFormAction::Create => Some(("/mirror/create"@, false, true, 30u64, true, true)),
        MirrorFormAction::Activate => Some(("/mirror/activate"@, true, false, 15u64, true, false)),
        MirrorFormAction::CreateStandby => Some(("/mirror/create-standby"@, false, false, 30u64, true, false)),
        _ => None,
    }
}

fn call(path: &str, send_onion: bool, send_token: bool, timeout_secs: u64, needs_success: bool, placeholder_on_failure: bool) -> (c: OrchestratorCall)
    ensures
        c.path@ == path@,
        c.send_onion == send_onion,
        c.send_token == send_token,
        c.timeout_secs == timeout_secs,
        c.needs_success == needs_success,
        c.placeholder_on_failure == placeholder_on_failure,
{
    OrchestratorCall { path: owned(path), send_onion, send_token, timeout_secs, needs_success, placeholder_on_failure }
}

/// The orchestrator call a mirror button makes, if any.
pub fn orchestrator_call(action: MirrorFormAction) -> (r: Option<OrchestratorCall>)
    ensures
        match call_of(action) {
            Some(c) => r matches Some(x) && x.path@ == c.0 && x.send_onion == c.1 && x.send_token == c.2
                && x.timeout_secs == c.3 && x.needs_success == c.4 && x.placeholder_on_failure == c.5,
            None => r is None,
        },
{
    match action {
        MirrorFormAction::Pause => Some(call("/mirror/pause", true, true, 10, false, false)),
        MirrorFormAction::Resume => Some(call("/mirror/resume", true, true, 10, false, false)),
        MirrorFormAction::Destroy => Some(call("/mirror/destroy", true, true, 10, false, false)),
        MirrorFormAction::Create => Some(call("/mirror/create", false, true, 30, true, true)),
        MirrorFormAction::Activate => Some(call("/mirror/activate", true, false, 15, true, false)),
        MirrorFormAction::CreateStandby => Some(call("/mirror/create-standby", false, false, 30, true, false)),
        _ => None,
    }
}

/// The ports the orchestrator may listen on, in the order they are tried.
pub fn orchestrator_ports() -> (r: (u16, u16))
    ensures
        r == (8080u16, 8180u16),
{
    (8080, 8180)
}

/// The address of an orchestrator API path on a local port.
pub fn orchestrator_url(port: u16, path: &str) -> (r: String)
    ensures
        r@ == "http://127.0.0.1:"@ + decimal(port as nat) + path@,
{
    let mut s = concat_str("http://127.0.0.1:", u64_to_decimal(port as u64).as_str());
    s.append(path);
    s
}

/// The record the panel keeps for a mirror it asked for but could not
/// reach the orchestrator about: named after the first 8 characters of one
/// random identifier, with a pending address made of the first 16 of another.
pub fn placeholder_mirror(id_source: &str, address_source: &str, now: u64) -> (m: MirrorInfo)
    requires
        id_source.is_ascii(),
        address_source.is_ascii(),
        id_source@.len() >= 8,
        address_source@.len() >= 16,
    ensures
        m.id@ == "mirror-"@ + id_source@.take(8),
        m.onion_address@ == "pending-"@ + address_source@.take(16) + ".onion"@,
        m.status@ == "creating"@,
        m.created_at == now,
        m.total_requests == 0,
{
    let id = concat_str("mirror-", id_source.substring_ascii(0, 8));
    let mut onion = concat_str("pending-", address_source.substring_ascii(0, 16));
    onion.append(".onion");
    proof {
        assert(id_source@.subrange(0, 8) =~= id_source@.take(8));
        assert(address_source@.subrange(0, 16) =~= address_source@.take(16));
    }
    MirrorInfo { id, onion_address: onion, status: owned("creating"), created_at: now, total_requests: 0 }
}

/// The placeholder the panel records at `now` in process `pid` for a mirror
/// it asked for but could not reach the orchestrator about: both the name
/// and the pending address are cut from the one identifier made then.
pub fn placeholder_mirror_at(now: u64, pid: u32) -> (m: MirrorInfo)
    ensures
        m.id@ == "mirror-"@ + panel_id(now, pid).take(8),
        m.onion_address@ == "pending-"@ + panel_id(now, pid).take(16) + ".onion"@,
        m.status@ == "creating"@,
        m.created_at == now,
        m.total_requests == 0,
{
    let id = uuid_v4_at(now, pid);
    placeholder_mirror(id.as_str(), id.as_str(), now)
}

/// Whether a colour is in "#RRGGBB" form as the branding form checks it:
/// it starts with '#' and `str::len` counts seven bytes.
pub open spec fn colour_ok(v: Seq<char>) -> bool {
    v.len() > 0 && v[0] == '#' && vstd::utf8::encode_utf8(v).len() as usize == 7
}

/// A text setting after the form: the form's value if it has one.
pub open spec fn text_setting(old: Seq<char>, params: Map<Seq<char>, String>, key: Seq<char>) -> Seq<char> {
    match field(params, key) { Some(v) => v, None => old }
}

/// A colour setting after the form: the form's value if it is a colour.
pub open spec fn colour_setting(old: Seq<char>, params: Map<Seq<char>, String>, key: Seq<char>) -> Seq<char> {
    match field(params, key) { Some(v) => if colour_ok(v) { v } else { old }, None => old }
}

fn text_field(old: &String, params: &StrMap<String>, key: &str) -> (r: String)
    requires
        params.wf(),
    ensures
        r@ == text_setting(old@, params.map(), key@),
{
    match params.get(key) {
        Some(v) => v.clone(),
        None => old.clone(),
    }
}

fn colour_field(old: &String, params: &StrMap<String>, key: &str) -> (r: String)
    requires
        params.wf(),
    ensures
        r@ == colour_setting(old@, params.map(), key@),
{
    match params.get(key) {
        Some(v) => {
            let sv = v.as_str();
            let ok = starts_with(sv, "#") && sv.len() == 7;
            proof {
                reveal_strlit("#");
                assert("#"@ =~= seq!['#']);
                if sv@.len() > 0 && sv@[0] == '#' {
                    assert(sv@.subrange(0, 1) =~= "#"@);
                }
                if ok {
                    assert(sv@.subrange(0, 1) =~= "#"@);
                    assert(sv@.subrange(0, 1)[0] == sv@[0]);
                }
            }
            if ok { v.clone() } else { old.clone() }
        },
        None => old.clone(),
    }
}

/// The branding settings after the branding form: texts replaced by the
/// form's values, colours only by well-formed ones, and the custom CSS
/// cleared by a blank value.
pub fn branding_from_form(current: &BrandingConfig, params: &StrMap<String>) -> (c: BrandingConfig)
    requires
        params.wf(),
    ensures
        c.service_name@ == text_setting(current.service_name@, params.map(), "service_name"@),
        c.description@ == text_setting(current.description@, params.map(), "description"@),
        c.welcome_message@ == text_setting(current.welcome_message@, params.map(), "welcome_message"@),
        c.primary_color@ == colour_setting(current.primary_color@, params.map(), "primary_color"@),
        c.secondary_color@ == colour_setting(current.secondary_color@, params.map(), "secondary_color"@),
        c.tertiary_color@ == colour_setting(current.tertiary_color@, params.map(), "tertiary_color"@),
        match field(params.map(), "custom_css"@) {
            Some(v) => if trimmed(v).len() == 0 { c.custom_css is None } else { c.custom_css matches Some(x) && x@ == v },
            None => match current.custom_css { Some(x) => c.custom_css matches Some(y) && y@ == x@, None => c.custom_css is None },
        },
{
    let custom_css = match params.get("custom_css") {
        Some(v) => {
            let t = trim(v.as_str());
            if t.as_str().unicode_len() == 0 { None } else { Some(v.clone()) }
        },
        None => match &current.custom_css {
            Some(x) => Some(x.clone()),
            None => None,
        },
    };
    BrandingConfig {
        service_name: text_field(&current.service_name, params, "service_name"),
        description: text_field(&current.description, params, "description"),
        welcome_message: text_field(&current.welcome_message, params, "welcome_message"),
        primary_color: colour_field(&current.primary_color, params, "primary_color"),
        secondary_color: colour_field(&current.secondary_color, params, "secondary_color"),
        tertiary_color: colour_field(&current.tertiary_color, params, "tertiary_color"),
        custom_css,
    }
}

/// The number a form field holds, read as an unsigned number no larger than `max`.
pub open spec fn number_field(params: Map<Seq<char>, String>, key: Seq<char>, max: nat) -> Option<nat> {
    match field(params, key) { Some(v) => parse_unsigned_spec(v, max), None => None }
}

fn read_number(params: &StrMap<String>, key: &str, max: u64) -> (r: Option<u64>)
    requires
        params.wf(),
    ensures
        number_field(params.map(), key@, max as nat) == match r { Some(v) => Some(v as nat), None => None::<nat> },
        r matches Some(v) ==> v <= max,
{
    match params.get(key) {
        Some(v) => parse_u64_max(v.as_str(), max),
        None => None,
    }
}

/// The `usize` a form field holds, if it reads as one.
pub open spec fn usize_field(params: Map<Seq<char>, String>, key: Seq<char>) -> Option<usize> {
    match field(params, key) { Some(v) => parse_usize_spec(v), None => None }
}

/// A `usize` setting after the form: the form's value if it reads as one.
pub open spec fn usize_setting(old: usize, params: Map<Seq<char>, String>, key: Seq<char>) -> usize {
    match usize_field(params, key) { Some(n) => n, None => old }
}

fn read_usize(params: &StrMap<String>, key: &str) -> (r: Option<usize>)
    requires
        params.wf(),
    ensures
        r == usize_field(params.map(), key@),
{
    match params.get(key) {
        Some(v) => parse_usize(v.as_str()),
        None => None,
    }
}

/// A number setting after the form: the form's value if it reads as a
/// number of the setting's type.
pub open spec fn number_setting(old: int, params: Map<Seq<char>, String>, key: Seq<char>, max: nat) -> int {
    match number_field(params, key, max) { Some(n) => n as int, None => old }
}

/// The CAPTCHA pool settings after the pool form. Fields that do not read
/// as numbers of the right type are left alone; the difficulty is held to
/// 1..=10 and the rotation share to at most 100 percent.
pub fn captcha_pool_from_form(current: CaptchaPoolConfig, params: &StrMap<String>) -> (c: CaptchaPoolConfig)
    requires
        params.wf(),
    ensures
        c.pool_size == usize_setting(current.pool_size, params.map(), "pool_size"@),
        c.min_pool_size == usize_setting(current.min_pool_size, params.map(), "min_pool_size"@),
        c.max_pool_size == usize_setting(current.max_pool_size, params.map(), "max_pool_size"@),
        c.difficulty == match number_field(params.map(), "difficulty"@, 255) {
            Some(n) => if n < 1 { 1 } else if n > 10 { 10 } else { n as int },
            None => current.difficulty as int,
        },
        c.timeout_seconds == number_setting(current.timeout_seconds as int, params.map(), "timeout_seconds"@, u64::MAX as nat),
        c.max_attempts == number_setting(current.max_attempts as int, params.map(), "max_attempts"@, u32::MAX as nat),
        c.rotation_percent == match number_field(params.map(), "rotation_percent"@, 255) {
            Some(n) => if n > 100 { 100 } else { n as int },
            None => current.rotation_percent as int,
        },
        c.rotation_interval_days == number_setting(current.rotation_interval_days as int, params.map(), "rotation_interval_days"@, u32::MAX as nat),
{
    let mut c = current;
    match read_usize(params, "pool_size") { Some(v) => { c.pool_size = v; }, None => {} }
    match read_usize(params, "min_pool_size") { Some(v) => { c.min_pool_size = v; }, None => {} }
    match read_usize(params, "max_pool_size") { Some(v) => { c.max_pool_size = v; }, None => {} }
    match read_number(params, "difficulty", 255) {
        Some(v) => { c.difficulty = if v < 1 { 1 } else if v > 10 { 10 } else { v as u8 }; },
        None => {},
    }
    match read_number(params, "timeout_seconds", u64::MAX) { Some(v) => { c.timeout_seconds = v; }, None => {} }
    match read_number(params, "max_attempts", 4294967295) { Some(v) => { c.max_attempts = v as u32; }, None => {} }
    match read_number(params, "rotation_percent", 255) {
        Some(v) => { c.rotation_percent = if v > 100 { 100 } else { v as u8 }; },
        None => {},
    }
    match read_number(params, "rotation_interval_days", 4294967295) { Some(v) => { c.rotation_interval_days = v as u32; }, None => {} }
    c
}

/// The settings the per-kind CAPTCHA form carries.
#[derive(Debug)]
pub struct CaptchaTypeForm {
    pub type_key: String,
    pub enabled: bool,
    pub option_count: usize,
    pub difficulty: u8,
    pub min_pool_size: usize,
}

/// Reads the per-kind CAPTCHA form: nothing without a kind name; a ticked
/// `enabled` box; and 4 choices, difficulty 2 and a pool of 50 where the
/// numbers are missing or do not read.
pub fn captcha_type_from_form(params: &StrMap<String>) -> (r: Option<CaptchaTypeForm>)
    requires
        params.wf(),
    ensures
        field(params.map(), "type_name"@) is None ==> r is None,
        field(params.map(), "type_name"@) matches Some(name) ==> (r matches Some(f)
            && f.type_key@ == name
            && f.enabled == params.map().contains_key("enabled"@)
            && f.option_count == usize_setting(4, params.map(), "option_count"@)
            && f.difficulty == number_setting(2, params.map(), "difficulty"@, 255)
            && f.min_pool_size == usize_setting(50, params.map(), "min_pool_size"@)),
{
    let name = match params.get("type_name") {
        Some(n) => n.clone(),
        None => { return None; },
    };
    let enabled = params.contains_key("enabled");
    let option_count = match read_usize(params, "option_count") { Some(v) => v, None => 4 };
    let difficulty = match read_number(params, "difficulty", 255) { Some(v) => v as u8, None => 2 };
    let min_pool_size = match read_usize(params, "min_pool_size") { Some(v) => v, None => 50 };
    Some(CaptchaTypeForm { type_key: name, enabled, option_count, difficulty, min_pool_size })
}

/// The name and `=` of the panel's login cookie.
pub const PANEL_COOKIE: &'static str = "fortify_admin_session=";

/// Whether the `Cookie` header carries a valid panel login at `now`: the
/// first `fortify_admin_session` cookie names a login that has not expired.
pub open spec fn panel_login_valid(a: AdminView, cookie_header: Option<Seq<char>>, now: u64) -> bool {
    match cookie_header {
        Some(h) => match first_with_prefix(cookie_pieces(h), "fortify_admin_session="@) {
            Some(id) => a.admin_sessions.contains_key(id)
                && a.admin_sessions[id] >= crate::admin::sat_sub(now, crate::admin::ADMIN_SESSION_SECS),
            None => false,
        },
        None => false,
    }
}

/// The `fortify_admin_session` values of a `Cookie` header, in order.
pub open spec fn all_with_prefix(pieces: Seq<Seq<char>>, prefix: Seq<char>) -> Seq<Seq<char>>
    decreases pieces.len(),
{
    if pieces.len() == 0 {
        Seq::empty()
    } else {
        let rest = all_with_prefix(pieces.drop_last(), prefix);
        if crate::text::has_prefix(pieces.last(), prefix) {
            rest.push(pieces.last().subrange(prefix.len() as int, pieces.last().len() as int))
        } else {
            rest
        }
    }
}

impl AdminState {
    /// Whether a request's `Cookie` header carries a valid panel login at `now`.
    pub fn panel_session_valid_at(&self, cookie_header: Option<&str>, now: u64) -> (r: bool)
        requires
            self.wf(),
        ensures
            r == panel_login_valid(self@, match cookie_header { Some(h) => Some(h@), None => None }, now),
    {
        proof {
            reveal_strlit("fortify_admin_session=");
        }
        match cookie_header {
            Some(h) => match cookie_value(h, "fortify_admin_session=") {
                Some(id) => self.is_admin_session_valid_at(id.as_str(), now),
                None => false,
            },
            None => false,
        }
    }

    /// Ends every panel login that a `Cookie` header names.
    pub fn log_out(&mut self, cookie_header: &str)
        requires
            old(self).wf(),
        ensures
            final(self).wf(),
            final(self)@ == (AdminView {
                admin_sessions: old(self)@.admin_sessions.remove_keys(
                    all_with_prefix(cookie_pieces(cookie_header@), "fortify_admin_session="@).to_set()),
                ..old(self)@
            }),
    {
        let ids = crate::gateway::cookie_values(cookie_header, "fortify_admin_session=");
        let ghost all = all_with_prefix(cookie_pieces(cookie_header@), "fortify_admin_session="@);
        let mut i: usize = 0;
        proof {
            assert(all.take(0).to_set() =~= Set::<Seq<char>>::empty());
            assert(old(self)@.admin_sessions.remove_keys(Set::<Seq<char>>::empty()) =~= old(self)@.admin_sessions);
        }
        while i < ids.len()
            invariant
                self.wf(),
                i <= ids@.len(),
                crate::text::views(ids@) == all,
                self@ == (AdminView {
                    admin_sessions: old(self)@.admin_sessions.remove_keys(all.take(i as int).to_set()),
                    ..old(self)@
                }),
            decreases ids@.len() - i,
        {
            let ghost before = self@;
            self.remove_admin_session(ids[i].as_str());
            proof {
                assert(crate::text::views(ids@)[i as int] == ids@[i as int]@);
                assert(all.take(i + 1) =~= all.take(i as int).push(all[i as int]));
                all.take(i as int).lemma_push_to_set_commute(all[i as int]);
                assert(all.take(i + 1).to_set() =~= all.take(i as int).to_set().insert(all[i as int]));
                assert(self@.admin_sessions =~= old(self)@.admin_sessions.remove_keys(all.take(i + 1).to_set()));
            }
            i = i + 1;
        }
        proof {
            assert(all.take(ids@.len() as int) =~= all);
        }
    }
}

/// The cookie that records a panel login for a day.
pub fn login_cookie(session_id: &str) -> (r: String)
    ensures
        r@ == "fortify_admin_session="@ + session_id@ + "; Path="@ + ADMIN_PATH@ + "; HttpOnly; Max-Age=86400"@,
{
    let mut c = concat_str("fortify_admin_session=", session_id);
    c.append("; Path=");
    c.append(ADMIN_PATH);
    c.append("; HttpOnly; Max-Age=86400");
    c
}

/// The cookie that clears a panel login.
pub fn logout_cookie() -> (r: String)
    ensures
        r@ == "fortify_admin_session=; Path="@ + ADMIN_PATH@ + "; Max-Age=0"@,
{
    let mut c = concat_str("fortify_admin_session=; Path=", ADMIN_PATH);
    c.append("; Max-Age=0");
    c
}

/// Whether a login form gives the panel password.
pub fn password_matches(params: &StrMap<String>) -> (r: bool)
    requires
        params.wf(),
    ensures
        r == (field_or_empty(params.map(), "password"@) == crate::admin::ADMIN_PASSWORD@),
{
    let p = form_field(params, "password");
    str_eq(p.as_str(), crate::admin::ADMIN_PASSWORD)
}

} // verus!
