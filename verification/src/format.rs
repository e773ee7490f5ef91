//! Text the administration panel shows and reads: escaped markup, short
//! durations and ages, the page number of a listing and submitted forms.

use vstd::prelude::*;
use crate::clock::unix_time_secs;
use crate::strmap::StrMap;
use crate::text::{chars_of, concat_str, decimal, owned, push_char, split_char, split_on, string_of, u64_to_decimal, views, parse_usize, parse_usize_spec};

verus! {

/// The markup-safe form of one character.
pub open spec fn escape_char(c: char) -> Seq<char> {
    if c == '&' { "&amp;"@ }
    else if c == '<' { "&lt;"@ }
    else if c == '>' { "&gt;"@ }
    else if c == '"' { "&quot;"@ }
    else if c == '\'' { "&#39;"@ }
    else { seq![c] }
}

/// The markup-safe form of a text: each special character replaced.
pub open spec fn escaped(s: Seq<char>) -> Seq<char>
    decreases s.len(),
{
    if s.len() == 0 { Seq::empty() } else { escaped(s.drop_last()) + escape_char(s.last()) }
}

/// Escapes the characters that are special in markup.
pub fn html_escape(s: &str) -> (r: String)
    ensures
        r@ == escaped(s@),
{
    proof {
        reveal_strlit("&amp;");
        reveal_strlit("&lt;");
        reveal_strlit("&gt;");
        reveal_strlit("&quot;");
        reveal_strlit("&#39;");
    }
    let v = chars_of(s);
    let mut r = String::new();
    let mut i: usize = 0;
    while i < v.len()
        invariant
            v@ == s@,
            i <= v@.len(),
            r@ == escaped(v@.take(i as int)),
        decreases v@.len() - i,
    {
        proof {
            assert(v@.take(i + 1).drop_last() =~= v@.take(i as int));
        }
        let c = v[i];
        if c == '&' {
            r.append("&amp;");
        } else if c == '<' {
            r.append("&lt;");
        } else if c == '>' {
            r.append("&gt;");
        } else if c == '"' {
            r.append("&quot;");
        } else if c == '\'' {
            r.append("&#39;");
        } else {
            let ghost r0 = r@;
            push_char(&mut r, c);
            proof {
                assert(r@ =~= r0 + seq![c]);
            }
        }
        i = i + 1;
    }
    proof {
        assert(v@.take(v@.len() as int) =~= v@);
    }
    r
}

/// A duration in the largest whole unit that fits: seconds, minutes, hours,
/// days or weeks.
pub open spec fn duration_text(secs: u64) -> Seq<char> {
    if secs < 60 { decimal(secs as nat) + "s"@ }
    else if secs < 3600 { decimal((secs / 60) as nat) + "m"@ }
    else if secs < 86400 { decimal((secs / 3600) as nat) + "h"@ }
    else if secs < 604800 { decimal((secs / 86400) as nat) + "d"@ }
    else { decimal((secs / 604800) as nat) + "w"@ }
}

/// Writes a duration as "45s", "3m", "2h", "4d" or "1w".
pub fn format_duration(secs: u64) -> (r: String)
    ensures
        r@ == duration_text(secs),
{
    if secs < 60 {
        concat_str(u64_to_decimal(secs).as_str(), "s")
    } else if secs < 3600 {
        concat_str(u64_to_decimal(secs / 60).as_str(), "m")
    } else if secs < 86400 {
        concat_str(u64_to_decimal(secs / 3600).as_str(), "h")
    } else if secs < 604800 {
        concat_str(u64_to_decimal(secs / 86400).as_str(), "d")
    } else {
        concat_str(u64_to_decimal(secs / 604800).as_str(), "w")
    }
}

/// How long ago a timestamp was at `now`; "Never" for zero, and a time
/// after `now` counts as just now.
pub open spec fn ago_text(ts: u64, now: u64) -> Seq<char> {
    if ts == 0 {
        "Never"@
    } else {
        let diff: u64 = if now >= ts { (now - ts) as u64 } else { 0 };
        if diff < 60 { decimal(diff as nat) + "s ago"@ }
        else if diff < 3600 { decimal((diff / 60) as nat) + "m ago"@ }
        else if diff < 86400 { decimal((diff / 3600) as nat) + "h ago"@ }
        else { decimal((diff / 86400) as nat) + "d ago"@ }
    }
}

/// Writes how long ago a timestamp was at `now`.
pub fn format_timestamp_at(ts: u64, now: u64) -> (r: String)
    ensures
        r@ == ago_text(ts, now),
{
    if ts == 0 {
        return owned("Never");
    }
    let diff = now.saturating_sub(ts);
    if diff < 60 {
        concat_str(u64_to_decimal(diff).as_str(), "s ago")
    } else if diff < 3600 {
        concat_str(u64_to_decimal(diff / 60).as_str(), "m ago")
    } else if diff < 86400 {
        concat_str(u64_to_decimal(diff / 3600).as_str(), "h ago")
    } else {
        concat_str(u64_to_decimal(diff / 86400).as_str(), "d ago")
    }
}

/// Writes how long ago a timestamp was, by the system clock.
pub fn format_timestamp(ts: u64) -> (r: String)
    ensures
        ts == 0 ==> r@ == "Never"@,
        exists|t: u64| r@ == #[trigger] ago_text(ts, t),
{
    let now = unix_time_secs();
    format_timestamp_at(ts, now)
}

/// The same as `format_timestamp_at`.
pub fn format_time_ago_at(ts: u64, now: u64) -> (r: String)
    ensures
        r@ == ago_text(ts, now),
{
    format_timestamp_at(ts, now)
}

/// The same as `format_timestamp`.
pub fn format_time_ago(ts: u64) -> (r: String)
    ensures
        ts == 0 ==> r@ == "Never"@,
        exists|t: u64| r@ == #[trigger] ago_text(ts, t),
{
    format_timestamp(ts)
}

/// The value of the first `page=` parameter of a query that parses as a
/// number, if any.
pub open spec fn page_param(pairs: Seq<Seq<char>>) -> Option<usize>
    decreases pairs.len(),
{
    if pairs.len() == 0 {
        None
    } else {
        let parts = split_on(pairs[0], '=');
        let here: Option<usize> = if parts[0] == "page"@ && parts.len() >= 2 { parse_usize_spec(parts[1]) } else { None };
        if here is Some { here } else { page_param(pairs.drop_first()) }
    }
}

/// The page a listing asks for: the first usable `page=` parameter, at least 1.
pub open spec fn page_of(query: Option<Seq<char>>) -> usize {
    let p: usize = match query {
        Some(q) => match page_param(split_on(q, '&')) {
            Some(n) => n,
            None => 1,
        },
        None => 1,
    };
    if p >= 1 { p } else { 1 }
}

/// Reads the page number from a query string.
pub fn parse_page_from_query(query: Option<&str>) -> (r: usize)
    ensures
        r == page_of(match query { Some(q) => Some(q@), None => None }),
{
    proof {
        reveal_strlit("page");
    }
    let mut found: Option<usize> = None;
    match query {
        Some(q) => {
            let pairs = split_char(q, '&');
            let ghost ps = views(pairs@);
            let mut i: usize = pairs.len();
            proof {
                assert(ps.skip(ps.len() as int) =~= Seq::<Seq<char>>::empty());
            }
            while i > 0
                invariant
                    ps == views(pairs@),
                    ps == split_on(q@, '&'),
                    i <= ps.len(),
                    found == page_param(ps.skip(i as int)),
                decreases i,
            {
                let parts = split_char(pairs[i - 1].as_str(), '=');
                proof {
                    crate::text::lemma_split_on_nonempty(pairs@[i - 1]@, '=');
                    assert(ps.skip(i - 1).drop_first() =~= ps.skip(i as int));
                    assert(ps.skip(i - 1)[0] == pairs@[i - 1]@);
                }
                let here: Option<usize> = if crate::text::str_eq(parts[0].as_str(), "page") && parts.len() >= 2 {
                    parse_usize(parts[1].as_str())
                } else {
                    None
                };
                if here.is_some() {
                    found = here;
                }
                i = i - 1;
            }
            proof {
                assert(ps.skip(0) =~= ps);
            }
        },
        None => {},
    }
    let p = match found {
        Some(n) => n,
        None => 1,
    };
    if p >= 1 { p } else { 1 }
}

/// What `urlencoding::decode` gives for a text: the decoded text, or `None`
/// when the decoded bytes are not UTF-8.
pub uninterp spec fn url_decoded(s: Seq<char>) -> Option<Seq<char>>;

/// Percent-decodes a form component with `urlencoding::decode`, giving the
/// empty string when the result is not UTF-8 (as `unwrap_or_default` does).
/// The result is named `url_decoded`; the crate's source also shows that a
/// text without '%' comes back unchanged.
#[verifier::external_body]
fn decode_component(s: &str) -> (r: String)
    ensures
        r@ == match url_decoded(s@) {
            Some(d) => d,
            None => Seq::<char>::empty(),
        },
        !s@.contains('%') ==> r@ == s@,
{
    urlencoding::decode(s).unwrap_or_default().to_string()
}

/// What `String::from_utf8_lossy` gives for bytes.
pub uninterp spec fn lossy_text(b: Seq<u8>) -> Seq<char>;

/// Reads bytes as text with `String::from_utf8_lossy`; the result is named
/// `lossy_text` of the bytes and nothing more is claimed of it.
#[verifier::external_body]
fn utf8_lossy(b: &[u8]) -> (r: String)
    ensures
        r@ == lossy_text(b@),
{
    String::from_utf8_lossy(b).to_string()
}

/// The part before and after the first '=' of a pair, if it has one.
pub open spec fn split_once_eq(p: Seq<char>) -> Option<(Seq<char>, Seq<char>)> {
    let parts = split_on(p, '=');
    if parts.len() >= 2 {
        Some((parts[0], p.skip(parts[0].len() as int + 1)))
    } else {
        None
    }
}

/// A decoded component, empty when it does not decode.
pub open spec fn decoded_or_empty(s: Seq<char>) -> Seq<char> {
    match url_decoded(s) {
        Some(d) => d,
        None => Seq::empty(),
    }
}

/// The map that a form body's pairs build, later pairs overriding earlier ones.
pub open spec fn form_map(pairs: Seq<Seq<char>>) -> Map<Seq<char>, Seq<char>>
    decreases pairs.len(),
{
    if pairs.len() == 0 {
        Map::empty()
    } else {
        let m = form_map(pairs.drop_last());
        match split_once_eq(pairs.last()) {
            Some(kv) => m.insert(decoded_or_empty(kv.0), decoded_or_empty(kv.1)),
            None => m,
        }
    }
}

/// The text after the first '=' of a string that has one.
fn after_first_eq(s: &str, before_len: usize) -> (r: String)
    requires
        before_len < s@.len(),
    ensures
        r@ == s@.skip(before_len + 1),
{
    let v = chars_of(s);
    assert(before_len < v.len());
    let r = string_of(v.as_slice(), before_len + 1, v.len());
    proof {
        assert(r@ =~= s@.skip(before_len + 1));
    }
    r
}

proof fn lemma_first_piece_shorter(s: Seq<char>, sep: char)
    requires
        split_on(s, sep).len() >= 2,
    ensures
        split_on(s, sep)[0].len() < s.len(),
        s[split_on(s, sep)[0].len() as int] == sep,
    decreases s.len(),
{
    crate::text::lemma_split_first(s, sep);
}

/// Reads a submitted form: `key=value` pairs separated by '&', both
/// percent-decoded; a pair without '=' is skipped and a later key wins.
pub fn parse_form_data(body: &[u8]) -> (r: StrMap<String>)
    ensures
        r.wf(),
        r.map().map_values(|v: String| v@) == form_map(split_on(lossy_text(body@), '&')),
{
    let text = utf8_lossy(body);
    let pairs = split_char(text.as_str(), '&');
    let ghost ps = views(pairs@);
    let mut m: StrMap<String> = StrMap::new();
    let mut i: usize = 0;
    proof {
        assert(ps.take(0) =~= Seq::<Seq<char>>::empty());
        assert(m.map().map_values(|v: String| v@) =~= Map::<Seq<char>, Seq<char>>::empty());
    }
    while i < pairs.len()
        invariant
            ps == views(pairs@),
            ps == split_on(lossy_text(body@), '&'),
            i <= ps.len(),
            m.wf(),
            m.map().map_values(|v: String| v@) == form_map(ps.take(i as int)),
        decreases ps.len() - i,
    {
        proof {
            assert(ps.take(i + 1).drop_last() =~= ps.take(i as int));
            assert(ps.take(i + 1).last() == pairs@[i as int]@);
        }
        let pair = pairs[i].as_str();
        let parts = split_char(pair, '=');
        if parts.len() >= 2 {
            proof {
                lemma_first_piece_shorter(pair@, '=');
            }
            let key_raw = parts[0].as_str();
            let value_raw = after_first_eq(pair, key_raw.unicode_len());
            let key = decode_component(key_raw);
            let value = decode_component(value_raw.as_str());
            let ghost m0 = m.map();
            let ghost vv = value;
            m.insert(key.as_str(), value);
            proof {
                assert(m.map().map_values(|v: String| v@) =~= m0.map_values(|v: String| v@).insert(key@, vv@));
            }
        }
        i = i + 1;
    }
    proof {
        assert(ps.take(ps.len() as int) =~= ps);
    }
    m
}

} // verus!
