//! The Tor side of the orchestrator: reading control-port replies, the
//! torrc block of a file-based onion service, vanity-prefix search steps
//! and placeholder onion addresses.

use vstd::prelude::*;
use crate::gateway::{ascii, first_with_prefix};
use crate::random::random_below;
use crate::registry::OrchestratorError;
use crate::text::{
    chars_of, concat_str, contains_str, decimal, has_infix, has_prefix, owned, push_char, starts_with, str_eq, string_of,
    strip_prefix, u64_to_decimal, views,
};
use crate::tier::{lowercase, to_lowercase};
use crate::admin::{hex_padded, u64_to_hex_padded};
use crate::text::{trim, trimmed, has_suffix, ends_with, prefix_at};

verus! {

/// How vanity onion addresses are searched for.
#[derive(Debug)]
pub struct VanityConfig {
    pub enabled: bool,
    /// The prefix wanted.
    pub prefix: String,
    /// Seconds one search may take.
    pub timeout: u64,
}

impl Default for VanityConfig {
    fn default() -> (c: Self)
        ensures
            !c.enabled,
            c.prefix@ == Seq::<char>::empty(),
            c.timeout == 0,
    {
        VanityConfig { enabled: false, prefix: String::new(), timeout: 0 }
    }
}

/// Where onion services are made.
#[derive(Debug)]
pub enum TorBackend {
    /// No Tor: placeholder addresses.
    Disabled,
    /// A Tor control port and its authentication cookie.
    ControlPort { addr: String, cookie_path: String },
}

/// Makes and removes the mirrors' onion services.
#[derive(Debug)]
pub struct TorService {
    pub backend: TorBackend,
    pub vanity: VanityConfig,
    /// Base data directory, holding `tor/torrc`.
    pub base_data_dir: String,
}

/// The value after the first line that starts with `prefix`.
pub open spec fn reply_field(lines: Seq<String>, prefix: Seq<char>) -> Option<Seq<char>> {
    first_with_prefix(views(lines), prefix)
}

fn find_field(lines: &[String], prefix: &str) -> (r: Option<String>)
    ensures
        match reply_field(lines@, prefix@) {
            Some(v) => r matches Some(s) && s@ == v,
            None => r is None,
        },
{
    let ghost ls = views(lines@);
    let mut i: usize = 0;
    proof {
        assert(ls.take(0) =~= Seq::<Seq<char>>::empty());
    }
    while i < lines.len()
        invariant
            ls == views(lines@),
            i <= lines@.len(),
            first_with_prefix(ls.take(i as int), prefix@) is None,
        decreases lines@.len() - i,
    {
        proof {
            assert(ls.take(i + 1).drop_last() =~= ls.take(i as int));
            assert(ls.take(i + 1).last() == lines@[i as int]@);
        }
        match strip_prefix(lines[i].as_str(), prefix) {
            Some(rest) => {
                proof {
                    assert(first_with_prefix(ls.take(i + 1), prefix@) == Some(rest@));
                    lemma_first_stays(ls, prefix@, i + 1, ls.len() as int);
                    assert(ls.take(ls.len() as int) =~= ls);
                }
                return Some(rest);
            },
            None => {},
        }
        i = i + 1;
    }
    proof {
        assert(ls.take(ls.len() as int) =~= ls);
    }
    None
}

proof fn lemma_first_stays(ls: Seq<Seq<char>>, prefix: Seq<char>, j: int, k: int)
    requires
        0 <= j <= k <= ls.len(),
        first_with_prefix(ls.take(j), prefix) is Some,
    ensures
        first_with_prefix(ls.take(k), prefix) == first_with_prefix(ls.take(j), prefix),
    decreases k - j,
{
    if k > j {
        lemma_first_stays(ls, prefix, j, k - 1);
        assert(ls.take(k).drop_last() =~= ls.take(k - 1));
    }
}

/// A field missing from a control-port reply.
pub open spec fn missing_field(e: OrchestratorError, what: Seq<char>) -> bool {
    e matches OrchestratorError::TorConfigError(m) && m@ == "Tor ADD_ONION response missing "@ + what
}

impl TorService {
    /// A service using the given control port and cookie, or placeholders
    /// when there is none; the base directory is `base_data_dir`.
    pub fn new(control: Option<(String, String)>, base_data_dir: String) -> (t: Self)
        ensures
            match control {
                Some(c) => t.backend == TorBackend::ControlPort { addr: c.0, cookie_path: c.1 },
                None => t.backend == TorBackend::Disabled,
            },
            !t.vanity.enabled,
            t.base_data_dir == base_data_dir,
    {
        let backend = match control {
            Some(c) => TorBackend::ControlPort { addr: c.0, cookie_path: c.1 },
            None => TorBackend::Disabled,
        };
        TorService { backend, vanity: VanityConfig::default(), base_data_dir }
    }

    /// The same service with another base directory.
    pub fn with_base_data_dir(self, dir: String) -> (t: Self)
        ensures
            t == (TorService { base_data_dir: dir, ..self }),
    {
        TorService { base_data_dir: dir, ..self }
    }

    /// The same service with vanity addresses configured.
    pub fn with_vanity(self, config: VanityConfig) -> (t: Self)
        ensures
            t == (TorService { vanity: config, ..self }),
    {
        TorService { vanity: config, ..self }
    }

    /// The service id of an `ADD_ONION` reply.
    pub fn extract_service_id(lines: &[String]) -> (r: Result<String, OrchestratorError>)
        ensures
            match reply_field(lines@, "250-ServiceID="@) {
                Some(v) => r matches Ok(s) && s@ == v,
                None => r matches Err(e) && missing_field(e, "ServiceID"@),
            },
    {
        match find_field(lines, "250-ServiceID=") {
            Some(s) => Ok(s),
            None => Err(OrchestratorError::TorConfigError(concat_str("Tor ADD_ONION response missing ", "ServiceID"))),
        }
    }

    /// The private key of an `ADD_ONION` reply.
    pub fn extract_private_key(lines: &[String]) -> (r: Result<String, OrchestratorError>)
        ensures
            match reply_field(lines@, "250-PrivateKey="@) {
                Some(v) => r matches Ok(s) && s@ == v,
                None => r matches Err(e) && missing_field(e, "PrivateKey"@),
            },
    {
        match find_field(lines, "250-PrivateKey=") {
            Some(s) => Ok(s),
            None => Err(OrchestratorError::TorConfigError(concat_str("Tor ADD_ONION response missing ", "PrivateKey"))),
        }
    }

    /// A placeholder onion address: 56 random base32 characters and ".onion".
    pub fn random_onion(&self) -> (s: String)
        ensures
            s@.len() == 62,
            s@.skip(56) == ".onion"@,
            forall|i: int| 0 <= i < 56 ==> base32_char(#[trigger] s@[i]),
    {
        let alphabet = chars_of("abcdefghijklmnopqrstuvwxyz234567");
        proof {
            reveal_strlit("abcdefghijklmnopqrstuvwxyz234567");
            reveal_strlit(".onion");
            assert(alphabet@.len() == 32);
        }
        let mut s = String::new();
        let mut i: usize = 0;
        while i < 56
            invariant
                alphabet@ == "abcdefghijklmnopqrstuvwxyz234567"@,
                alphabet@.len() == 32,
                i <= 56,
                s@.len() == i,
                forall|k: int| 0 <= k < i ==> base32_char(#[trigger] s@[k]),
            decreases 56 - i,
        {
            let k = random_below(32);
            let c = alphabet[k as usize];
            let ghost s0 = s@;
            push_char(&mut s, c);
            proof {
                assert(alphabet@[k as int] == c);
                assert(base32_char(c));
                assert forall|j: int| 0 <= j < i + 1 implies base32_char(#[trigger] s@[j]) by {
                    if j < i {
                        assert(s@[j] == s0[j]);
                    }
                }
            }
            i = i + 1;
        }
        let ghost s0 = s@;
        s.append(".onion");
        proof {
            assert(s@.skip(56) =~= ".onion"@);
            assert forall|k: int| 0 <= k < 56 implies base32_char(#[trigger] s@[k]) by {
                assert(s@[k] == s0[k]);
            }
        }
        s
    }
}

/// A character of the base32 alphabet that onion addresses use.
pub open spec fn base32_char(c: char) -> bool {
    "abcdefghijklmnopqrstuvwxyz234567"@.contains(c)
}

/// What a line of a control-port reply means for the command that caused it.
#[derive(Debug)]
pub enum ReplyLine {
    /// An empty line: read on.
    Skip,
    /// A line of the reply; more follow.
    More(String),
    /// The last line of the reply.
    Last(String),
    /// An error reply that `DEL_ONION` tolerates: the reply is this line alone.
    Tolerated(String),
    /// An error reply.
    Failed(String),
}

/// A line without its trailing white space.
pub open spec fn trim_end_of(s: Seq<char>) -> Seq<char> {
    crate::text::trim_end(s)
}

/// The three-character status code of an ASCII reply line ("" when shorter).
pub open spec fn code_of(s: Seq<char>) -> Seq<char> {
    if s.len() >= 3 { s.take(3) } else { Seq::empty() }
}

/// How a line (ASCII, as the control protocol writes them) is read.
pub open spec fn reply_line_spec(command: Seq<char>, line: Seq<char>, r: ReplyLine) -> bool {
    let t = trim_end_of(line);
    let code = code_of(t);
    if t.len() == 0 {
        r is Skip
    } else if code.len() > 0 && code[0] == '5' {
        if has_prefix(command, "DEL_ONION"@) && has_infix(t, "552"@) {
            r matches ReplyLine::Tolerated(s) && s@ == t
        } else {
            r matches ReplyLine::Failed(s) && s@ == t
        }
    } else if code == "250"@ && !has_prefix(t, "250-"@) {
        r matches ReplyLine::Last(s) && s@ == t
    } else {
        r matches ReplyLine::More(s) && s@ == t
    }
}

/// Reads one line of a control-port reply to `command`.
pub fn classify_reply_line(command: &str, line: &str) -> (r: ReplyLine)
    requires
        ascii(line@),
    ensures
        reply_line_spec(command@, line@, r),
{
    proof {
        reveal_strlit("250");
        reveal_strlit("250-");
        reveal_strlit("DEL_ONION");
        reveal_strlit("552");
    }
    let t = crate::text::trim_end_string(line);
    let v = chars_of(t.as_str());
    if v.len() == 0 {
        return ReplyLine::Skip;
    }
    let code: String = if v.len() >= 3 { string_of(v.as_slice(), 0, 3) } else { String::new() };
    proof {
        if v@.len() >= 3 {
            assert(code@ == v@.take(3));
        } else {
            assert(code@ =~= Seq::<char>::empty());
        }
    }
    let cv = chars_of(code.as_str());
    if cv.len() > 0 && cv[0] == '5' {
        if starts_with(command, "DEL_ONION") && contains_str(t.as_str(), "552") {
            return ReplyLine::Tolerated(t);
        }
        return ReplyLine::Failed(t);
    }
    if str_eq(code.as_str(), "250") && !starts_with(t.as_str(), "250-") {
        ReplyLine::Last(t)
    } else {
        ReplyLine::More(t)
    }
}

/// Whether an `AUTHENTICATE` reply reports success: some line starts with "250".
pub open spec fn auth_ok(lines: Seq<String>) -> bool {
    exists|i: int| 0 <= i < lines.len() && has_prefix(#[trigger] lines[i]@, "250"@)
}

/// Whether an `AUTHENTICATE` reply reports success.
pub fn authenticated(lines: &[String]) -> (r: bool)
    ensures
        r == auth_ok(lines@),
{
    let mut i: usize = 0;
    while i < lines.len()
        invariant
            i <= lines@.len(),
            forall|k: int| 0 <= k < i ==> !has_prefix(#[trigger] lines@[k]@, "250"@),
        decreases lines@.len() - i,
    {
        if starts_with(lines[i].as_str(), "250") {
            return true;
        }
        i = i + 1;
    }
    false
}

/// The torrc block of a file-based onion service with proof-of-work and
/// denial-of-service defences.
pub open spec fn torrc_block(mirror_id: Seq<char>, hs_dir: Seq<char>, port: u16) -> Seq<char> {
    "# Fortify mirror: "@ + mirror_id + "\nHiddenServiceDir "@ + hs_dir + "\nHiddenServicePort 80 127.0.0.1:"@
        + decimal(port as nat)
        + "\nHiddenServicePoWDefensesEnabled 1\nHiddenServiceEnableIntroDoSDefense 1\nHiddenServiceMaxStreams 100\nHiddenServiceMaxStreamsCloseCircuit 1\n"@
}

/// Writes the torrc block of a mirror's file-based onion service.
pub fn mirror_torrc_block(mirror_id: &str, hs_dir: &str, port: u16) -> (s: String)
    ensures
        s@ == torrc_block(mirror_id@, hs_dir@, port),
{
    let mut s = concat_str("# Fortify mirror: ", mirror_id);
    s.append("\nHiddenServiceDir ");
    s.append(hs_dir);
    s.append("\nHiddenServicePort 80 127.0.0.1:");
    s.append(u64_to_decimal(port as u64).as_str());
    s.append("\nHiddenServicePoWDefensesEnabled 1\nHiddenServiceEnableIntroDoSDefense 1\nHiddenServiceMaxStreams 100\nHiddenServiceMaxStreamsCloseCircuit 1\n");
    s
}

/// Whether a directory made by the vanity search holds a key for `prefix`:
/// its name starts with the prefix (ignoring case) and is a bare address of
/// 56 bytes or ends in ".onion".
pub open spec fn vanity_dir_matches(name: &str, prefix: Seq<char>) -> bool {
    has_prefix(lowercase(name@), lowercase(prefix))
        && (name.len() == 56 || crate::text::has_suffix(name@, ".onion"@))
}

/// Whether a directory name holds a vanity key for `prefix`.
pub fn is_vanity_dir(name: &str, prefix: &str) -> (r: bool)
    ensures
        r == vanity_dir_matches(name, prefix@),
{
    let n = to_lowercase(name);
    let p = to_lowercase(prefix);
    starts_with(n.as_str(), p.as_str()) && (name.len() == 56 || crate::text::ends_with(name, ".onion"))
}

/// What the vanity search does after one attempt.
#[derive(Debug)]
pub enum VanityStep {
    /// A key was found: this is the onion address.
    Found(String),
    /// Try again with this shorter prefix.
    Retry(String),
    /// No prefix is left to try.
    GiveUp,
}

/// The onion address of a key directory: its name without a trailing
/// ".onion", and ".onion" appended.
pub open spec fn onion_of_dir(name: Seq<char>) -> Seq<char> {
    (if crate::text::has_suffix(name, ".onion"@) { name.take(name.len() - 6) } else { name }) + ".onion"@
}

/// The next step of the vanity search, after an attempt with `prefix` that
/// found the key directory `found` (if any): a found key ends the search,
/// otherwise the prefix loses its last character while more than one is left.
pub fn vanity_next(prefix: &str, found: Option<&str>) -> (r: VanityStep)
    requires
        ascii(prefix@),
    ensures
        match found {
            Some(name) => r matches VanityStep::Found(s) && s@ == onion_of_dir(name@),
            None => if prefix@.len() > 1 {
                r matches VanityStep::Retry(s) && s@ == prefix@.drop_last()
            } else {
                r is GiveUp
            },
        },
{
    proof {
        reveal_strlit(".onion");
    }
    match found {
        Some(name) => {
            let v = chars_of(name);
            let base = if crate::text::ends_with(name, ".onion") {
                string_of(v.as_slice(), 0, v.len() - 6)
            } else {
                owned(name)
            };
            proof {
                if crate::text::has_suffix(name@, ".onion"@) {
                    assert(base@ =~= name@.take(name@.len() - 6));
                }
            }
            VanityStep::Found(concat_str(base.as_str(), ".onion"))
        },
        None => {
            let v = chars_of(prefix);
            if v.len() > 1 {
                let s = string_of(v.as_slice(), 0, v.len() - 1);
                proof {
                    assert(s@ =~= prefix@.drop_last());
                }
                VanityStep::Retry(s)
            } else {
                VanityStep::GiveUp
            }
        },
    }
}

/// The `ADD_ONION` command for a mirror on local port `port`: with a new
/// key or the given one, detached, and asking for proof-of-work defences
/// when `pow` is set.
pub open spec fn add_onion_spec(key: Option<Seq<char>>, port: u16, pow: bool) -> Seq<char> {
    "ADD_ONION "@ + match key { Some(k) => k, None => "NEW:ED25519-V3"@ } + " Port=80,127.0.0.1:"@ + decimal(port as nat)
        + if pow { " Flags=Detach,PoWDefensesEnabled"@ } else { " Flags=Detach"@ }
}

/// Writes the `ADD_ONION` command.
pub fn add_onion_command(key: Option<&str>, port: u16, pow: bool) -> (c: String)
    ensures
        c@ == add_onion_spec(match key { Some(k) => Some(k@), None => None }, port, pow),
{
    let mut c = owned("ADD_ONION ");
    match key {
        Some(k) => c.append(k),
        None => c.append("NEW:ED25519-V3"),
    }
    c.append(" Port=80,127.0.0.1:");
    c.append(u64_to_decimal(port as u64).as_str());
    if pow {
        c.append(" Flags=Detach,PoWDefensesEnabled");
    } else {
        c.append(" Flags=Detach");
    }
    c
}

/// The command that removes an onion service.
pub fn del_onion_command(service_id: &str) -> (c: String)
    ensures
        c@ == "DEL_ONION "@ + service_id@,
{
    concat_str("DEL_ONION ", service_id)
}

/// Whether Tor refused an `ADD_ONION` with proof-of-work because it does not
/// know the flag: a configuration error whose text holds "512" or "552".
pub open spec fn pow_refused(e: OrchestratorError) -> bool {
    e matches OrchestratorError::TorConfigError(m) && (has_infix(m@, "512"@) || has_infix(m@, "552"@))
}

/// Whether Tor refused an `ADD_ONION` because the service already runs: a
/// configuration error whose text holds "550" and, lower-cased, "collision".
pub open spec fn service_collides(e: OrchestratorError) -> bool {
    e matches OrchestratorError::TorConfigError(m) && has_infix(m@, "550"@) && has_infix(lowercase(m@), "collision"@)
}

/// Whether an error means the proof-of-work flag is unknown to this Tor.
pub fn is_pow_refusal(e: &OrchestratorError) -> (r: bool)
    ensures
        r == pow_refused(*e),
{
    match e {
        OrchestratorError::TorConfigError(m) => contains_str(m.as_str(), "512") || contains_str(m.as_str(), "552"),
        _ => false,
    }
}

/// Whether an error means the onion service is already running.
pub fn is_service_collision(e: &OrchestratorError) -> (r: bool)
    ensures
        r == service_collides(*e),
{
    match e {
        OrchestratorError::TorConfigError(m) => {
            contains_str(m.as_str(), "550") && contains_str(to_lowercase(m.as_str()).as_str(), "collision")
        },
        _ => false,
    }
}

/// The onion address in a `hostname` file written by Tor: its trimmed
/// content, when that is not empty and ends in ".onion".
pub fn hostname_onion(contents: &str) -> (r: Option<String>)
    ensures
        match r {
            Some(a) => a@ == trimmed(contents@) && trimmed(contents@).len() > 0 && has_suffix(trimmed(contents@), ".onion"@),
            None => trimmed(contents@).len() == 0 || !has_suffix(trimmed(contents@), ".onion"@),
        },
{
    let t = trim(contents);
    if t.as_str().unicode_len() > 0 && ends_with(t.as_str(), ".onion") {
        Some(t)
    } else {
        None
    }
}

/// A text with every ".onion" taken out, scanning left to right as
/// `str::replace` does.
pub open spec fn without_onion(s: Seq<char>) -> Seq<char>
    decreases s.len(),
{
    if s.len() == 0 {
        s
    } else if s.len() >= 6 && has_prefix(s, ".onion"@) {
        without_onion(s.skip(6))
    } else {
        seq![s[0]] + without_onion(s.drop_first())
    }
}

/// The service id of an onion address: the address with ".onion" taken out.
pub fn service_id_of(onion: &str) -> (r: String)
    ensures
        r@ == without_onion(onion@),
{
    proof {
        reveal_strlit(".onion");
    }
    let v = chars_of(onion);
    let pat = chars_of(".onion");
    let n = v.len();
    let mut r = String::new();
    let mut i: usize = 0;
    proof {
        assert(v@.skip(0) =~= v@);
        assert(r@ + without_onion(v@.skip(0)) =~= without_onion(onion@));
    }
    while i < n
        invariant
            v@ == onion@,
            pat@ == ".onion"@,
            pat@.len() == 6,
            n == v@.len(),
            i <= n,
            r@ + without_onion(v@.skip(i as int)) == without_onion(onion@),
        decreases n - i,
    {
        let ghost rest = v@.skip(i as int);
        proof {
            assert(rest =~= v@.subrange(i as int, v@.len() as int));
        }
        if prefix_at(v.as_slice(), i, pat.as_slice()) {
            proof {
                assert(has_prefix(rest, ".onion"@));
                assert(rest.skip(6) =~= v@.skip(i + 6));
            }
            i = i + 6;
        } else {
            let c = v[i];
            let ghost before = r@;
            push_char(&mut r, c);
            proof {
                assert(!has_prefix(rest, ".onion"@));
                assert(rest.drop_first() =~= v@.skip(i + 1));
                assert(rest[0] == c);
                assert(r@ + without_onion(v@.skip(i + 1)) =~= before + without_onion(rest));
            }
            i = i + 1;
        }
    }
    proof {
        assert(v@.skip(n as int) =~= Seq::<char>::empty());
        assert(r@ + Seq::<char>::empty() =~= r@);
    }
    r
}

/// The lower-case hexadecimal of some bytes, two digits a byte.
pub open spec fn hex_bytes(b: Seq<u8>) -> Seq<char>
    decreases b.len(),
{
    if b.len() == 0 { Seq::empty() } else { hex_bytes(b.drop_last()) + hex_padded(b.last() as nat, 2) }
}

/// A secret key file's bytes in the form `ADD_ONION` takes:
/// "ED25519-V3:" and the bytes in lower-case hexadecimal.
pub fn private_key_entry(key: &[u8]) -> (r: String)
    ensures
        r@ == "ED25519-V3:"@ + hex_bytes(key@),
{
    let mut r = owned("ED25519-V3:");
    let mut i: usize = 0;
    proof {
        assert(key@.take(0) =~= Seq::<u8>::empty());
    }
    while i < key.len()
        invariant
            i <= key@.len(),
            r@ == "ED25519-V3:"@ + hex_bytes(key@.take(i as int)),
        decreases key@.len() - i,
    {
        let h = u64_to_hex_padded(key[i] as u64, 2);
        let ghost before = r@;
        r.append(h.as_str());
        proof {
            assert(key@.take(i + 1).drop_last() =~= key@.take(i as int));
            assert(key@.take(i + 1).last() == key@[i as int]);
            assert(r@ =~= "ED25519-V3:"@ + hex_bytes(key@.take(i + 1)));
        }
        i = i + 1;
    }
    proof {
        assert(key@.take(key@.len() as int) =~= key@);
    }
    r
}

/// What a mirror's `hostname` file holds: the address and a line break.
pub fn hostname_file(onion: &str) -> (r: String)
    ensures
        r@ == onion@ + "\n"@,
{
    concat_str(onion, "\n")
}

/// The pause before another try at the control port after failed try
/// `attempt` (counted from zero): 100 ms, then 200 ms, and no third wait.
pub fn control_retry_delay_ms(attempt: u32) -> (r: Option<u64>)
    ensures
        r == if attempt < 2 { Some((100 * (attempt + 1)) as u64) } else { None::<u64> },
{
    if attempt < 2 { Some(100 * (attempt as u64 + 1)) } else { None }
}

} // verus!
