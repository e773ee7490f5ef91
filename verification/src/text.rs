//! Character-level text helpers used to build log lines and page labels.

use vstd::prelude::*;

verus! {

/// The decimal digit character for a value below ten.
pub open spec fn digit_char(d: nat) -> char {
    if d == 0 { '0' }
    else if d == 1 { '1' }
    else if d == 2 { '2' }
    else if d == 3 { '3' }
    else if d == 4 { '4' }
    else if d == 5 { '5' }
    else if d == 6 { '6' }
    else if d == 7 { '7' }
    else if d == 8 { '8' }
    else { '9' }
}

/// The decimal rendering of a natural number, without leading zeros.
pub open spec fn decimal(n: nat) -> Seq<char>
    decreases n,
{
    if n < 10 {
        seq![digit_char(n)]
    } else {
        decimal(n / 10).push(digit_char(n % 10))
    }
}

fn digit(d: u64) -> (c: char)
    requires
        d < 10,
    ensures
        c == digit_char(d as nat),
{
    if d == 0 { '0' }
    else if d == 1 { '1' }
    else if d == 2 { '2' }
    else if d == 3 { '3' }
    else if d == 4 { '4' }
    else if d == 5 { '5' }
    else if d == 6 { '6' }
    else if d == 7 { '7' }
    else if d == 8 { '8' }
    else { '9' }
}

/// Appends one character to a string.
#[verifier::external_body]
pub(crate) fn push_char(s: &mut String, c: char)
    ensures
        final(s)@ == old(s)@.push(c),
{
    s.push(c);
}

/// Renders `n` in decimal.
pub fn u64_to_decimal(n: u64) -> (s: String)
    ensures
        s@ == decimal(n as nat),
    decreases n,
{
    if n < 10 {
        let mut s = String::new();
        push_char(&mut s, digit(n));
        proof {
            assert(s@ =~= seq![digit_char(n as nat)]);
        }
        s
    } else {
        let mut s = u64_to_decimal(n / 10);
        push_char(&mut s, digit(n % 10));
        s
    }
}


/// The characters of a string slice, in order.
pub fn chars_of(s: &str) -> (v: Vec<char>)
    ensures
        v@ == s@,
{
    let n = s.unicode_len();
    let mut v: Vec<char> = Vec::new();
    let mut i: usize = 0;
    while i < n
        invariant
            n == s@.len(),
            i <= n,
            v@ == s@.subrange(0, i as int),
        decreases n - i,
    {
        let c = s.get_char(i);
        v.push(c);
        i = i + 1;
        proof {
            assert(v@ =~= s@.subrange(0, i as int));
        }
    }
    proof {
        assert(v@ =~= s@);
    }
    v
}

/// Builds a string from the characters `v[from..to]`.
pub fn string_of(v: &[char], from: usize, to: usize) -> (s: String)
    requires
        from <= to <= v@.len(),
    ensures
        s@ == v@.subrange(from as int, to as int),
{
    let mut s = String::new();
    let mut i: usize = from;
    while i < to
        invariant
            from <= i <= to <= v@.len(),
            s@ == v@.subrange(from as int, i as int),
        decreases to - i,
    {
        push_char(&mut s, v[i]);
        i = i + 1;
        proof {
            assert(s@ =~= v@.subrange(from as int, i as int));
        }
    }
    s
}

/// Copies a string slice into an owned string.
pub fn owned(s: &str) -> (r: String)
    ensures
        r@ == s@,
{
    String::from_str(s)
}

/// The two strings one after the other.
pub fn concat_str(a: &str, b: &str) -> (r: String)
    ensures
        r@ == a@ + b@,
{
    let mut s = owned(a);
    s.append(b);
    s
}

/// Whether two string slices hold the same characters.
pub fn str_eq(a: &str, b: &str) -> (r: bool)
    ensures
        r == (a@ == b@),
{
    let x = owned(a);
    let y = owned(b);
    x == y
}

/// Whether `p` is a prefix of `s`.
pub open spec fn has_prefix(s: Seq<char>, p: Seq<char>) -> bool {
    p.len() <= s.len() && s.subrange(0, p.len() as int) == p
}

/// Whether the characters `v[at..]` begin with `p`.
pub fn prefix_at(v: &[char], at: usize, p: &[char]) -> (r: bool)
    requires
        at <= v@.len(),
    ensures
        r == has_prefix(v@.subrange(at as int, v@.len() as int), p@),
{
    let ghost rest = v@.subrange(at as int, v@.len() as int);
    if p.len() > v.len() - at {
        return false;
    }
    let mut i: usize = 0;
    while i < p.len()
        invariant
            at + p.len() <= v.len(),
            rest == v@.subrange(at as int, v@.len() as int),
            i <= p@.len(),
            forall|j: int| 0 <= j < i ==> v@[at + j] == p@[j],
        decreases p@.len() - i,
    {
        if v[at + i] != p[i] {
            proof {
                assert(rest.subrange(0, p@.len() as int)[i as int] != p@[i as int]);
            }
            return false;
        }
        i = i + 1;
    }
    proof {
        assert(rest.subrange(0, p@.len() as int) =~= p@);
    }
    true
}

/// Whether `s` starts with `p`.
pub fn starts_with(s: &str, p: &str) -> (r: bool)
    ensures
        r == has_prefix(s@, p@),
{
    let v = chars_of(s);
    let w = chars_of(p);
    let r = prefix_at(v.as_slice(), 0, w.as_slice());
    proof {
        assert(v@.subrange(0, v@.len() as int) =~= v@);
    }
    r
}

/// The rest of `s` after the prefix `p`, when `s` starts with `p`.
pub fn strip_prefix(s: &str, p: &str) -> (r: Option<String>)
    ensures
        has_prefix(s@, p@) ==> r is Some && r->0@ == s@.subrange(p@.len() as int, s@.len() as int),
        !has_prefix(s@, p@) ==> r is None,
{
    let v = chars_of(s);
    let w = chars_of(p);
    let ok = prefix_at(v.as_slice(), 0, w.as_slice());
    proof {
        assert(v@.subrange(0, v@.len() as int) =~= v@);
    }
    if ok {
        Some(string_of(v.as_slice(), w.len(), v.len()))
    } else {
        None
    }
}

/// Whether `p` occurs somewhere in `s` as a contiguous run.
pub open spec fn has_infix(s: Seq<char>, p: Seq<char>) -> bool {
    exists|i: int| 0 <= i <= s.len() - p.len() && #[trigger] s.subrange(i, i + p.len()) == p
}

/// Whether `p` occurs somewhere in `v`.
pub fn contains_chars(v: &[char], p: &[char]) -> (r: bool)
    ensures
        r == has_infix(v@, p@),
{
    if p.len() > v.len() {
        return false;
    }
    if p.len() == 0 {
        proof {
            assert(v@.subrange(0, 0 + p@.len() as int) =~= p@);
        }
        return true;
    }
    let last = v.len() - p.len();
    let mut i: usize = 0;
    while i <= last
        invariant
            last == v.len() - p.len(),
            0 < p.len() <= v.len(),
            i <= last + 1,
            forall|j: int| 0 <= j < i ==> #[trigger] v@.subrange(j, j + p@.len()) != p@,
        decreases last + 1 - i,
    {
        if prefix_at(v, i, p) {
            proof {
                let rest = v@.subrange(i as int, v@.len() as int);
                assert(rest.subrange(0, p@.len() as int) =~= v@.subrange(i as int, i + p@.len()));
            }
            return true;
        }
        proof {
            let rest = v@.subrange(i as int, v@.len() as int);
            assert(rest.subrange(0, p@.len() as int) =~= v@.subrange(i as int, i + p@.len()));
        }
        i = i + 1;
    }
    false
}

/// Whether `p` occurs somewhere in `s`.
pub fn contains_str(s: &str, p: &str) -> (r: bool)
    ensures
        r == has_infix(s@, p@),
{
    let v = chars_of(s);
    let w = chars_of(p);
    contains_chars(v.as_slice(), w.as_slice())
}


/// The pieces of `s` between occurrences of `sep` (an empty `s` gives one
/// empty piece), defined from the last character backwards.
pub open spec fn split_on(s: Seq<char>, sep: char) -> Seq<Seq<char>>
    decreases s.len(),
{
    if s.len() == 0 {
        seq![Seq::<char>::empty()]
    } else {
        let r = split_on(s.drop_last(), sep);
        if s.last() == sep {
            r.push(Seq::<char>::empty())
        } else {
            r.update(r.len() - 1, r.last().push(s.last()))
        }
    }
}

/// A split always yields at least one piece.
pub proof fn lemma_split_on_nonempty(s: Seq<char>, sep: char)
    ensures
        split_on(s, sep).len() >= 1,
    decreases s.len(),
{
    if s.len() > 0 {
        lemma_split_on_nonempty(s.drop_last(), sep);
    }
}

proof fn lemma_single_piece(s: Seq<char>, sep: char)
    requires
        split_on(s, sep).len() == 1,
    ensures
        split_on(s, sep)[0] == s,
    decreases s.len(),
{
    if s.len() > 0 {
        lemma_split_on_nonempty(s.drop_last(), sep);
        if s.last() != sep {
            lemma_single_piece(s.drop_last(), sep);
            assert(s.drop_last().push(s.last()) =~= s);
        }
    }
}

/// When a split yields two pieces or more, the first ends just before the
/// first separator.
pub proof fn lemma_split_first(s: Seq<char>, sep: char)
    requires
        split_on(s, sep).len() >= 2,
    ensures
        split_on(s, sep)[0].len() < s.len(),
        s[split_on(s, sep)[0].len() as int] == sep,
    decreases s.len(),
{
    let t = s.drop_last();
    lemma_split_on_nonempty(t, sep);
    let r = split_on(t, sep);
    if r.len() >= 2 {
        lemma_split_first(t, sep);
        assert(split_on(s, sep)[0] == r[0]);
        assert(s[r[0].len() as int] == t[r[0].len() as int]);
    } else {
        lemma_single_piece(t, sep);
        assert(s.last() == sep);
        assert(split_on(s, sep)[0] == t);
    }
}

/// The views of a list of strings.
pub open spec fn views(v: Seq<String>) -> Seq<Seq<char>> {
    v.map_values(|x: String| x@)
}

/// Splits `s` at every `sep`, as `str::split` with a character pattern does.
pub fn split_char(s: &str, sep: char) -> (r: Vec<String>)
    ensures
        views(r@) == split_on(s@, sep),
{
    let v = chars_of(s);
    let n = v.len();
    let mut pieces: Vec<String> = Vec::new();
    let mut cur = String::new();
    let mut i: usize = 0;
    proof {
        assert(v@.subrange(0, 0) =~= Seq::<char>::empty());
        assert(views(pieces@).push(cur@) =~= split_on(v@.subrange(0, 0), sep));
    }
    while i < n
        invariant
            n == v@.len(),
            i <= n,
            views(pieces@).push(cur@) == split_on(v@.subrange(0, i as int), sep),
        decreases n - i,
    {
        let c = v[i];
        let ghost before = v@.subrange(0, i as int);
        proof {
            assert(v@.subrange(0, i + 1).drop_last() =~= before);
            lemma_split_on_nonempty(before, sep);
        }
        if c == sep {
            let done = cur;
            pieces.push(done);
            cur = String::new();
            proof {
                assert(views(pieces@).push(cur@) =~= split_on(v@.subrange(0, i + 1), sep));
            }
        } else {
            push_char(&mut cur, c);
            proof {
                assert(views(pieces@).push(cur@) =~= split_on(v@.subrange(0, i + 1), sep));
            }
        }
        i = i + 1;
    }
    pieces.push(cur);
    proof {
        assert(v@.subrange(0, n as int) =~= v@);
        assert(views(pieces@) =~= split_on(v@, sep));
    }
    pieces
}

/// Unicode `White_Space` characters, the set that `char::is_whitespace` tests.
pub open spec fn is_ws(c: char) -> bool {
    ||| ('\u{9}' <= c && c <= '\u{d}')
    ||| c == ' '
    ||| c == '\u{85}'
    ||| c == '\u{a0}'
    ||| c == '\u{1680}'
    ||| ('\u{2000}' <= c && c <= '\u{200a}')
    ||| c == '\u{2028}'
    ||| c == '\u{2029}'
    ||| c == '\u{202f}'
    ||| c == '\u{205f}'
    ||| c == '\u{3000}'
}

fn is_whitespace_char(c: char) -> (r: bool)
    ensures
        r == is_ws(c),
{
    ('\u{9}' <= c && c <= '\u{d}') || c == ' ' || c == '\u{85}' || c == '\u{a0}'
        || c == '\u{1680}' || ('\u{2000}' <= c && c <= '\u{200a}') || c == '\u{2028}'
        || c == '\u{2029}' || c == '\u{202f}' || c == '\u{205f}' || c == '\u{3000}'
}

/// `s` without leading whitespace.
pub open spec fn trim_start(s: Seq<char>) -> Seq<char>
    decreases s.len(),
{
    if s.len() > 0 && is_ws(s[0]) {
        trim_start(s.drop_first())
    } else {
        s
    }
}

/// `s` without trailing whitespace.
pub open spec fn trim_end(s: Seq<char>) -> Seq<char>
    decreases s.len(),
{
    if s.len() > 0 && is_ws(s.last()) {
        trim_end(s.drop_last())
    } else {
        s
    }
}

/// `s` without leading and trailing whitespace, as `str::trim` gives it.
pub open spec fn trimmed(s: Seq<char>) -> Seq<char> {
    trim_end(trim_start(s))
}

/// Removes leading and trailing whitespace.
pub fn trim(s: &str) -> (r: String)
    ensures
        r@ == trimmed(s@),
{
    let v = chars_of(s);
    let n = v.len();
    let mut a: usize = 0;
    proof {
        assert(v@.subrange(0, n as int) =~= v@);
    }
    while a < n && is_whitespace_char(v[a])
        invariant
            n == v@.len(),
            a <= n,
            trim_start(v@) == trim_start(v@.subrange(a as int, n as int)),
        decreases n - a,
    {
        proof {
            assert(v@.subrange(a as int, n as int).drop_first() =~= v@.subrange(a + 1, n as int));
        }
        a = a + 1;
    }
    let ghost mid = v@.subrange(a as int, n as int);
    assert(trim_start(v@) == mid);
    let mut b: usize = n;
    proof {
        assert(mid =~= v@.subrange(a as int, b as int));
    }
    while b > a && is_whitespace_char(v[b - 1])
        invariant
            n == v@.len(),
            a <= b <= n,
            mid == v@.subrange(a as int, n as int),
            trim_end(mid) == trim_end(v@.subrange(a as int, b as int)),
        decreases b - a,
    {
        proof {
            assert(v@.subrange(a as int, b as int).drop_last() =~= v@.subrange(a as int, b - 1));
        }
        b = b - 1;
    }
    string_of(v.as_slice(), a, b)
}

/// Removes trailing whitespace, as `str::trim_end` does.
pub fn trim_end_string(s: &str) -> (r: String)
    ensures
        r@ == trim_end(s@),
{
    let v = chars_of(s);
    let n = v.len();
    let mut b: usize = n;
    proof {
        assert(v@ =~= v@.subrange(0, n as int));
    }
    while b > 0 && is_whitespace_char(v[b - 1])
        invariant
            n == v@.len(),
            b <= n,
            trim_end(v@) == trim_end(v@.subrange(0, b as int)),
        decreases b,
    {
        proof {
            assert(v@.subrange(0, b as int).drop_last() =~= v@.subrange(0, b - 1));
        }
        b = b - 1;
    }
    string_of(v.as_slice(), 0, b)
}

/// Whether `s` ends with `p`.
pub open spec fn has_suffix(s: Seq<char>, p: Seq<char>) -> bool {
    p.len() <= s.len() && s.skip(s.len() - p.len()) == p
}

/// Whether a string ends with another.
pub fn ends_with(s: &str, p: &str) -> (r: bool)
    ensures
        r == has_suffix(s@, p@),
{
    let v = chars_of(s);
    let w = chars_of(p);
    if w.len() > v.len() {
        return false;
    }
    let start = v.len() - w.len();
    let mut i: usize = 0;
    while i < w.len()
        invariant
            v@ == s@,
            w@ == p@,
            start + w@.len() == v@.len(),
            v@.len() <= usize::MAX,
            i <= w@.len(),
            forall|k: int| 0 <= k < i ==> v@[start + k] == w@[k],
        decreases w@.len() - i,
    {
        if v[start + i] != w[i] {
            proof {
                assert(s@.skip(start as int)[i as int] != p@[i as int]);
            }
            return false;
        }
        i = i + 1;
    }
    proof {
        assert(s@.skip(start as int) =~= p@);
    }
    true
}

/// Whether one of the strings in `v` equals `s`.
pub fn contains_string(v: &Vec<String>, s: &str) -> (r: bool)
    ensures
        r == views(v@).contains(s@),
{
    let mut i: usize = 0;
    while i < v.len()
        invariant
            i <= v@.len(),
            forall|j: int| 0 <= j < i ==> v@[j]@ != s@,
        decreases v@.len() - i,
    {
        if str_eq(v[i].as_str(), s) {
            proof {
                assert(views(v@)[i as int] == s@);
            }
            return true;
        }
        i = i + 1;
    }
    proof {
        if views(v@).contains(s@) {
            let k = choose|k: int| 0 <= k < views(v@).len() && #[trigger] views(v@)[k] == s@;
            assert(v@[k]@ == s@);
        }
    }
    false
}


/// The value of a decimal digit character.
pub open spec fn digit_value(c: char) -> int {
    c as int - '0' as int
}

/// Whether a character is an ASCII digit.
pub open spec fn is_digit(c: char) -> bool {
    '0' <= c && c <= '9'
}

/// The number that a run of digits spells.
pub open spec fn digits_value(s: Seq<char>) -> int
    decreases s.len(),
{
    if s.len() == 0 { 0 } else { digits_value(s.drop_last()) * 10 + digit_value(s.last()) }
}

/// The digits part of a number: `s` without one leading '+'.
pub open spec fn number_body(s: Seq<char>) -> Seq<char> {
    if s.len() > 0 && s[0] == '+' { s.drop_first() } else { s }
}

/// Whether every character is a digit.
pub open spec fn all_digits(s: Seq<char>) -> bool {
    forall|i: int| 0 <= i < s.len() ==> #[trigger] is_digit(s[i])
}

/// What `usize::from_str` gives for `s`: an optional '+' followed by one or
/// more digits whose value fits in a `usize`.
pub open spec fn parse_usize_spec(s: Seq<char>) -> Option<usize> {
    if number_body(s).len() > 0 && all_digits(number_body(s)) && digits_value(number_body(s)) <= usize::MAX {
        Some(digits_value(number_body(s)) as usize)
    } else {
        None
    }
}

proof fn lemma_digits_nonneg(s: Seq<char>)
    requires
        all_digits(s),
    ensures
        0 <= digits_value(s),
    decreases s.len(),
{
    if s.len() > 0 {
        assert forall|i: int| 0 <= i < s.drop_last().len() implies #[trigger] is_digit(s.drop_last()[i]) by {
            assert(s.drop_last()[i] == s[i]);
        }
        lemma_digits_nonneg(s.drop_last());
        assert(is_digit(s[s.len() - 1]));
    }
}

proof fn lemma_digits_monotone(s: Seq<char>, k: int)
    requires
        0 <= k <= s.len(),
        all_digits(s),
    ensures
        digits_value(s.take(k)) <= digits_value(s),
    decreases s.len() - k,
{
    if k < s.len() {
        lemma_digits_monotone(s, k + 1);
        assert(s.take(k + 1).drop_last() =~= s.take(k));
        assert(s.take(k + 1).last() == s[k]);
        assert(is_digit(s[k]));
        assert forall|i: int| 0 <= i < s.take(k).len() implies #[trigger] is_digit(s.take(k)[i]) by {
            assert(s.take(k)[i] == s[i]);
        }
        lemma_digits_nonneg(s.take(k));
    } else {
        assert(s.take(k) =~= s);
    }
}

/// Parses a `usize` the way `str::parse::<usize>` does.
pub fn parse_usize(s: &str) -> (r: Option<usize>)
    ensures
        r == parse_usize_spec(s@),
{
    let v = chars_of(s);
    let start: usize = if v.len() > 0 && v[0] == '+' { 1 } else { 0 };
    let ghost body = number_body(v@);
    proof {
        assert(body =~= v@.subrange(start as int, v@.len() as int));
    }
    if start >= v.len() {
        return None;
    }
    let mut acc: usize = 0;
    let mut i: usize = start;
    proof {
        assert(body.take(0) =~= Seq::<char>::empty());
    }
    while i < v.len()
        invariant
            start <= i <= v@.len(),
            v@ == s@,
            body == number_body(v@),
            body == v@.subrange(start as int, v@.len() as int),
            forall|j: int| 0 <= j < i - start ==> #[trigger] is_digit(body[j]),
            acc as int == digits_value(body.take(i - start)),
        decreases v@.len() - i,
    {
        let c = v[i];
        proof {
            assert(body[i - start] == c);
            assert(body.take(i - start + 1).drop_last() =~= body.take(i - start));
            assert(body.take(i - start + 1).last() == c);
        }
        if !('0' <= c && c <= '9') {
            proof {
                assert(!is_digit(body[i - start]));
                assert(!all_digits(body));
            }
            return None;
        }
        let d = (c as u32 - '0' as u32) as usize;
        if acc > (usize::MAX - d) / 10 {
            proof {
                assert(digit_value(c) == d);
                assert(acc * 10 + d > usize::MAX) by (nonlinear_arith)
                    requires acc > (usize::MAX - d) / 10, d <= 9, acc >= 0;
                assert(digits_value(body.take(i - start + 1)) == acc * 10 + d);
                if all_digits(body) {
                    lemma_digits_monotone(body, i - start + 1);
                }
            }
            return None;
        }
        proof {
            assert(acc * 10 + d <= usize::MAX) by (nonlinear_arith)
                requires acc <= (usize::MAX - d) / 10, d <= 9;
        }
        acc = acc * 10 + d;
        i = i + 1;
    }
    proof {
        assert(body.take(body.len() as int) =~= body);
    }
    Some(acc)
}

/// What `str::parse` gives for an unsigned type whose largest value is
/// `max`: an optional '+' followed by one or more digits whose value is at
/// most `max`.
pub open spec fn parse_unsigned_spec(s: Seq<char>, max: nat) -> Option<nat> {
    if number_body(s).len() > 0 && all_digits(number_body(s)) && digits_value(number_body(s)) <= max {
        Some(digits_value(number_body(s)) as nat)
    } else {
        None
    }
}

/// Parses an unsigned number no larger than `max`, the way `str::parse`
/// does for an unsigned type whose largest value is `max`.
pub fn parse_u64_max(s: &str, max: u64) -> (r: Option<u64>)
    ensures
        parse_unsigned_spec(s@, max as nat) == match r { Some(v) => Some(v as nat), None => None::<nat> },
        r matches Some(v) ==> v <= max,
{
    let v = chars_of(s);
    let start: usize = if v.len() > 0 && v[0] == '+' { 1 } else { 0 };
    let ghost body = number_body(v@);
    proof {
        assert(body =~= v@.subrange(start as int, v@.len() as int));
    }
    if start >= v.len() {
        return None;
    }
    let mut acc: u64 = 0;
    let mut i: usize = start;
    proof {
        assert(body.take(0) =~= Seq::<char>::empty());
    }
    while i < v.len()
        invariant
            start <= i <= v@.len(),
            v@ == s@,
            body == number_body(v@),
            body == v@.subrange(start as int, v@.len() as int),
            forall|j: int| 0 <= j < i - start ==> #[trigger] is_digit(body[j]),
            acc as int == digits_value(body.take(i - start)),
            acc <= max,
        decreases v@.len() - i,
    {
        let c = v[i];
        proof {
            assert(body[i - start] == c);
            assert(body.take(i - start + 1).drop_last() =~= body.take(i - start));
            assert(body.take(i - start + 1).last() == c);
        }
        if !('0' <= c && c <= '9') {
            proof {
                assert(!is_digit(body[i - start]));
                assert(!all_digits(body));
            }
            return None;
        }
        let d = (c as u32 - '0' as u32) as u64;
        if d > max || acc > (max - d) / 10 {
            proof {
                assert(digit_value(c) == d);
                assert(acc * 10 + d > max) by (nonlinear_arith)
                    requires d > max || acc > (max - d) / 10, d <= 9, acc >= 0;
                assert(digits_value(body.take(i - start + 1)) == acc * 10 + d);
                if all_digits(body) {
                    lemma_digits_monotone(body, i - start + 1);
                }
            }
            return None;
        }
        proof {
            assert(acc * 10 + d <= max) by (nonlinear_arith)
                requires acc <= (max - d) / 10, d <= max, d <= 9;
        }
        acc = acc * 10 + d;
        i = i + 1;
    }
    proof {
        assert(body.take(body.len() as int) =~= body);
        lemma_digits_nonneg(body);
    }
    Some(acc)
}

proof fn lemma_decimal_len(n: nat)
    ensures
        decimal(n).len() >= 1,
        n >= 10 ==> decimal(n).len() >= 2,
    decreases n,
{
    if n >= 10 {
        lemma_decimal_len(n / 10);
    }
}

/// Different numbers have different decimal renderings.
pub proof fn lemma_decimal_injective(n: nat, m: nat)
    requires
        decimal(n) == decimal(m),
    ensures
        n == m,
    decreases n,
{
    lemma_decimal_len(n);
    lemma_decimal_len(m);
    if n < 10 && m < 10 {
        assert(decimal(n)[0] == digit_char(n));
        assert(decimal(m)[0] == digit_char(m));
    } else if n >= 10 && m >= 10 {
        let a = decimal(n / 10);
        let b = decimal(m / 10);
        assert(decimal(n) == a.push(digit_char(n % 10)));
        assert(decimal(m) == b.push(digit_char(m % 10)));
        assert(a =~= decimal(n).drop_last());
        assert(b =~= decimal(m).drop_last());
        assert(digit_char(n % 10) == decimal(n).last());
        assert(digit_char(m % 10) == decimal(m).last());
        lemma_decimal_injective(n / 10, m / 10);
    } else if n < 10 {
        lemma_decimal_len(n / 10);
        assert(decimal(n).len() == 1);
    } else {
        assert(decimal(m).len() == 1);
    }
}

} // verus!
