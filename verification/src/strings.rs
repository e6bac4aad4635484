//! Character-level string helpers shared by the parsers and renderers:
//! whitespace trimming, ASCII case folding, decimal formatting and joining.

use vstd::prelude::*;

verus! {

// ---------------------------------------------------------------------------
// Whitespace and trimming
// ---------------------------------------------------------------------------

/// The Unicode `White_Space` characters, which is the set that
/// `char::is_whitespace` and `str::trim` recognise.
pub open spec fn is_whitespace_char(c: char) -> bool {
    ||| ('\u{9}' <= c && c <= '\u{d}')
    ||| c == ' '
    ||| c == '\u{85}'
    ||| c == '\u{a0}'
    ||| c == '\u{1680}'
    ||| ('\u{2000}' <= c && c <= '\u{200a}')
    ||| c == '\u{2028}'
    ||| c == '\u{2029}'
    ||| c == '\u{202f}'
    ||| c == '\u{205f}'
    ||| c == '\u{3000}'
}

pub fn is_whitespace(c: char) -> (r: bool)
    ensures
        r == is_whitespace_char(c),
{
    ('\u{9}' <= c && c <= '\u{d}') || c == ' ' || c == '\u{85}' || c == '\u{a0}' || c
        == '\u{1680}' || ('\u{2000}' <= c && c <= '\u{200a}') || c == '\u{2028}' || c
        == '\u{2029}' || c == '\u{202f}' || c == '\u{205f}' || c == '\u{3000}'
}

/// Index of the first non-whitespace character at or after `i`
/// (the length when there is none).
pub open spec fn skip_ws_forward(s: Seq<char>, i: int) -> int
    decreases s.len() - i,
{
    if 0 <= i < s.len() && is_whitespace_char(s[i]) {
        skip_ws_forward(s, i + 1)
    } else {
        i
    }
}

/// One past the index of the last non-whitespace character before `j`
/// (0 when there is none).
pub open spec fn skip_ws_backward(s: Seq<char>, j: int) -> int
    decreases j,
{
    if 0 < j <= s.len() && is_whitespace_char(s[j - 1]) {
        skip_ws_backward(s, j - 1)
    } else {
        j
    }
}

/// `s` without leading and trailing whitespace.
pub open spec fn trim_spec(s: Seq<char>) -> Seq<char> {
    let a = skip_ws_forward(s, 0);
    let b = skip_ws_backward(s, s.len() as int);
    if b <= a {
        Seq::empty()
    } else {
        s.subrange(a, b)
    }
}

proof fn lemma_skip_forward_bounds(s: Seq<char>, i: int)
    requires
        0 <= i <= s.len(),
    ensures
        i <= skip_ws_forward(s, i) <= s.len(),
        skip_ws_forward(s, i) < s.len() ==> !is_whitespace_char(s[skip_ws_forward(s, i)]),
        forall|k: int| i <= k < skip_ws_forward(s, i) ==> is_whitespace_char(#[trigger] s[k]),
    decreases s.len() - i,
{
    if i < s.len() && is_whitespace_char(s[i]) {
        lemma_skip_forward_bounds(s, i + 1);
    }
}

proof fn lemma_skip_backward_bounds(s: Seq<char>, j: int)
    requires
        0 <= j <= s.len(),
    ensures
        0 <= skip_ws_backward(s, j) <= j,
        skip_ws_backward(s, j) > 0 ==> !is_whitespace_char(s[skip_ws_backward(s, j) - 1]),
        forall|k: int| skip_ws_backward(s, j) <= k < j ==> is_whitespace_char(#[trigger] s[k]),
    decreases j,
{
    if j > 0 && is_whitespace_char(s[j - 1]) {
        lemma_skip_backward_bounds(s, j - 1);
    }
}

/// The characters of `s` without leading and trailing whitespace, as
/// `str::trim` gives them.
pub fn trim(s: &str) -> (r: &str)
    ensures
        r@ == trim_spec(s@),
{
    let n = s.unicode_len();
    let mut i: usize = 0;
    while i < n && is_whitespace(s.get_char(i))
        invariant
            n == s@.len(),
            0 <= i <= n,
            skip_ws_forward(s@, 0) == skip_ws_forward(s@, i as int),
        decreases n - i,
    {
        i += 1;
    }
    let mut j: usize = n;
    while j > i && is_whitespace(s.get_char(j - 1))
        invariant
            n == s@.len(),
            0 <= i <= j <= n,
            skip_ws_forward(s@, 0) == i,
            skip_ws_backward(s@, n as int) == skip_ws_backward(s@, j as int),
        decreases j,
    {
        j -= 1;
    }
    proof {
        lemma_skip_forward_bounds(s@, 0);
        lemma_skip_backward_bounds(s@, j as int);
        if i < j {
            assert(!is_whitespace_char(s@[j - 1]));
            assert(skip_ws_backward(s@, j as int) == j);
        } else {
            assert(j == i);
            if i < n {
                assert(!is_whitespace_char(s@[i as int]));
                assert(skip_ws_backward(s@, (i + 1) as int) == i + 1);
            }
        }
    }
    s.substring_char(i, j)
}

/// `s` without trailing whitespace, as `str::trim_end` gives it.
pub open spec fn trim_end_spec(s: Seq<char>) -> Seq<char> {
    s.subrange(0, skip_ws_backward(s, s.len() as int))
}

/// The characters, without trailing whitespace, as a string.
pub fn collect_trim_end(chars: &Vec<char>) -> (r: String)
    ensures
        r@ == trim_end_spec(chars@),
{
    let mut j: usize = chars.len();
    while j > 0 && is_whitespace(chars[j - 1])
        invariant
            j <= chars@.len(),
            skip_ws_backward(chars@, chars@.len() as int) == skip_ws_backward(chars@, j as int),
        decreases j,
    {
        j -= 1;
    }
    let mut out = String::new();
    let mut i: usize = 0;
    while i < j
        invariant
            j <= chars@.len(),
            0 <= i <= j,
            out@ == chars@.subrange(0, i as int),
        decreases j - i,
    {
        push_char(&mut out, chars[i]);
        assert(chars@.subrange(0, i + 1) =~= chars@.subrange(0, i as int).push(chars@[i as int]));
        i += 1;
    }
    out
}

// ---------------------------------------------------------------------------
// Case folding
// ---------------------------------------------------------------------------

/// ASCII upper-case letters map to lower case; every other character is kept.
pub open spec fn ascii_lower_char(c: char) -> char {
    if 'A' <= c && c <= 'Z' {
        ((c as u32) + 32) as char
    } else {
        c
    }
}

pub open spec fn ascii_lower(s: Seq<char>) -> Seq<char> {
    s.map_values(|c: char| ascii_lower_char(c))
}

/// Trimming and ASCII lower-casing once is as good as twice: the result is
/// already trimmed and already lower-case.
pub proof fn lemma_normalize_idempotent(v: Seq<char>)
    ensures
        ascii_lower(trim_spec(ascii_lower(trim_spec(v)))) == ascii_lower(trim_spec(v)),
{
    let t = trim_spec(v);
    let u = ascii_lower(t);
    lemma_skip_forward_bounds(v, 0);
    lemma_skip_backward_bounds(v, v.len() as int);
    let a = skip_ws_forward(v, 0);
    let b = skip_ws_backward(v, v.len() as int);
    if u.len() > 0 {
        assert(b > a);
        assert(t[0] == v[a]);
        assert(t.last() == v[b - 1]);
        assert(!is_whitespace_char(u[0]));
        assert(!is_whitespace_char(u.last()));
        assert(skip_ws_forward(u, 0) == 0);
        assert(skip_ws_backward(u, u.len() as int) == u.len());
        assert(trim_spec(u) =~= u);
    } else {
        assert(trim_spec(u) =~= u);
    }
    assert(ascii_lower(u) =~= u);
}

pub fn char_to_ascii_lowercase(c: char) -> (r: char)
    ensures
        r == ascii_lower_char(c),
{
    if 'A' <= c && c <= 'Z' {
        let b: u8 = c as u8;
        assert(b == c as u32);
        ((b + 32) as u8) as char
    } else {
        c
    }
}

/// `s` with ASCII letters folded to lower case, as `str::to_ascii_lowercase`
/// does.
pub fn to_ascii_lowercase(s: &str) -> (r: String)
    ensures
        r@ == ascii_lower(s@),
{
    let n = s.unicode_len();
    let mut out = String::new();
    let mut i: usize = 0;
    while i < n
        invariant
            n == s@.len(),
            0 <= i <= n,
            out@ == ascii_lower(s@.subrange(0, i as int)),
        decreases n - i,
    {
        let c = char_to_ascii_lowercase(s.get_char(i));
        push_char(&mut out, c);
        assert(s@.subrange(0, i + 1) == s@.subrange(0, i as int).push(s@[i as int]));
        i += 1;
    }
    assert(s@.subrange(0, n as int) == s@);
    out
}

/// `s` trimmed, with ASCII letters in lower case: the form in which option
/// values are compared.
pub fn lower_trimmed(s: &str) -> (r: String)
    ensures
        r@ == ascii_lower(trim_spec(s@)),
{
    to_ascii_lowercase(trim(s))
}

/// What `str::to_lowercase` gives for a string: its lower-case form under the
/// Unicode `Lowercase` mapping.
pub uninterp spec fn unicode_lowercase(s: Seq<char>) -> Seq<char>;

/// Calls `str::to_lowercase`, whose result depends on the characters of `s`
/// alone; the contract names that result and says nothing more of it.
#[verifier::external_body]
pub(crate) fn to_lowercase(s: &str) -> (r: String)
    ensures
        r@ == unicode_lowercase(s@),
{
    s.to_lowercase()
}

/// Calls `String::push`, which appends one character.
#[verifier::external_body]
pub(crate) fn push_char(s: &mut String, c: char)
    ensures
        final(s)@ == old(s)@.push(c),
{
    s.push(c)
}

// ---------------------------------------------------------------------------
// Comparison and search
// ---------------------------------------------------------------------------

/// Whether two strings hold the same characters.
pub fn str_eq(a: &str, b: &str) -> (r: bool)
    ensures
        r == (a@ == b@),
{
    let n = a.unicode_len();
    if n != b.unicode_len() {
        return false;
    }
    let mut i: usize = 0;
    while i < n
        invariant
            n == a@.len(),
            n == b@.len(),
            0 <= i <= n,
            forall|k: int| 0 <= k < i ==> a@[k] == b@[k],
        decreases n - i,
    {
        if a.get_char(i) != b.get_char(i) {
            return false;
        }
        i += 1;
    }
    assert(a@ == b@);
    true
}

/// Whether `needle` occurs in `hay` starting at position `at`.
pub open spec fn occurs_at(hay: Seq<char>, needle: Seq<char>, at: int) -> bool {
    0 <= at && at + needle.len() <= hay.len() && hay.subrange(at, at + needle.len()) == needle
}

/// Whether `needle` is a substring of `hay`.
pub open spec fn contains_seq(hay: Seq<char>, needle: Seq<char>) -> bool {
    exists|at: int| occurs_at(hay, needle, at)
}

pub fn occurs_at_exec(hay: &Vec<char>, needle: &Vec<char>, at: usize) -> (r: bool)
    requires
        at + needle@.len() <= hay@.len(),
    ensures
        r == occurs_at(hay@, needle@, at as int),
{
    let m = needle.len();
    let hl = hay.len();
    let mut k: usize = 0;
    while k < m
        invariant
            m == needle@.len(),
            at + m <= hay@.len(),
            hl == hay@.len(),
            0 <= k <= m,
            forall|t: int| 0 <= t < k ==> hay@[at + t] == needle@[t],
        decreases m - k,
    {
        if hay[at + k] != needle[k] {
            assert(hay@.subrange(at as int, at + m)[k as int] != needle@[k as int]);
            return false;
        }
        k += 1;
    }
    assert(hay@.subrange(at as int, at + m) == needle@);
    true
}

/// The characters of a string, in order.
pub fn chars_of(s: &str) -> (r: Vec<char>)
    ensures
        r@ == s@,
{
    let n = s.unicode_len();
    let mut out: Vec<char> = Vec::new();
    let mut i: usize = 0;
    while i < n
        invariant
            n == s@.len(),
            0 <= i <= n,
            out@ == s@.subrange(0, i as int),
        decreases n - i,
    {
        out.push(s.get_char(i));
        i += 1;
    }
    assert(s@.subrange(0, n as int) == s@);
    out
}

/// Whether `needle` occurs anywhere in `hay`, as `str::contains` on a string
/// pattern decides.
pub fn contains_str(hay: &str, needle: &str) -> (r: bool)
    ensures
        r == contains_seq(hay@, needle@),
{
    let h = chars_of(hay);
    let nd = chars_of(needle);
    if nd.len() > h.len() {
        return false;
    }
    let last = h.len() - nd.len();
    let mut at: usize = 0;
    while at <= last
        invariant
            h@ == hay@,
            nd@ == needle@,
            last == h@.len() - nd@.len(),
            0 <= at <= last + 1,
            forall|t: int| 0 <= t < at ==> !occurs_at(hay@, needle@, t),
        decreases last + 1 - at,
    {
        if occurs_at_exec(&h, &nd, at) {
            return true;
        }
        if at == last {
            assert forall|t: int| !occurs_at(hay@, needle@, t) by {
                if 0 <= t <= at {
                }
            }
            return false;
        }
        at += 1;
    }
    assert forall|t: int| !occurs_at(hay@, needle@, t) by {
        if 0 <= t < at {
        }
    }
    false
}

// ---------------------------------------------------------------------------
// Building strings
// ---------------------------------------------------------------------------

/// A string holding the characters of `s`.
pub fn string_of(s: &str) -> (r: String)
    ensures
        r@ == s@,
{
    String::from_str(s)
}

/// `a` followed by `b`.
pub fn concat(a: &str, b: &str) -> (r: String)
    ensures
        r@ == a@ + b@,
{
    let mut out = String::from_str(a);
    out.append(b);
    out
}

/// The ASCII digit for `d`.
pub open spec fn digit_char(d: int) -> char {
    (('0' as u32) + d) as char
}

/// Decimal representation of a natural number, without leading zeros.
pub open spec fn decimal(n: nat) -> Seq<char>
    decreases n,
{
    if n < 10 {
        seq![digit_char(n as int)]
    } else {
        decimal(n / 10).push(digit_char((n % 10) as int))
    }
}

/// Appends the decimal representation of `n` to `out`.
pub fn push_decimal(out: &mut String, n: u64)
    ensures
        final(out)@ == old(out)@ + decimal(n as nat),
    decreases n,
{
    if n >= 10 {
        push_decimal(out, n / 10);
    }
    let d: u8 = (n % 10) as u8;
    let c: char = (48u8 + d) as char;
    assert(c == digit_char((n % 10) as int));
    push_char(out, c);
}

/// The decimal representation of `n`, as `u64::to_string` gives it.
pub fn u64_to_string(n: u64) -> (r: String)
    ensures
        r@ == decimal(n as nat),
{
    let mut out = String::new();
    push_decimal(&mut out, n);
    assert(out@ == Seq::<char>::empty() + decimal(n as nat));
    out
}

/// The strings of `parts` joined by `sep`.
pub open spec fn seq_join(parts: Seq<Seq<char>>, sep: Seq<char>) -> Seq<char>
    decreases parts.len(),
{
    if parts.len() == 0 {
        Seq::empty()
    } else if parts.len() == 1 {
        parts[0]
    } else {
        seq_join(parts.drop_last(), sep) + sep + parts.last()
    }
}

/// Views of a list of strings.
pub open spec fn views(list: Seq<String>) -> Seq<Seq<char>> {
    list.map_values(|s: String| s@)
}

/// `list` joined by `sep`, as `[String]::join` gives it.
pub fn join(list: &[String], sep: &str) -> (r: String)
    ensures
        r@ == seq_join(views(list@), sep@),
{
    let mut out = String::new();
    let n = list.len();
    let mut i: usize = 0;
    while i < n
        invariant
            n == list@.len(),
            0 <= i <= n,
            out@ == seq_join(views(list@).take(i as int), sep@),
        decreases n - i,
    {
        if i > 0 {
            out.append(sep);
        }
        out.append(list[i].as_str());
        assert(views(list@).take(i + 1).drop_last() == views(list@).take(i as int));
        i += 1;
    }
    assert(views(list@).take(n as int) == views(list@));
    out
}

/// How a boolean prints.
pub open spec fn bool_text(b: bool) -> Seq<char> {
    if b {
        "true"@
    } else {
        "false"@
    }
}

/// How a boolean prints.
pub fn bool_text_exec(b: bool) -> (r: &'static str)
    ensures
        r@ == bool_text(b),
{
    if b {
        "true"
    } else {
        "false"
    }
}

} // verus!
