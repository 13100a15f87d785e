//! Character-level helpers shared by the record parser, the adapters and the renderer.

use vstd::prelude::*;
use vstd::string::*;

verus! {

/// Whether `c` has the Unicode `White_Space` property.
pub open spec fn is_whitespace(c: char) -> bool {
    let n = c as u32;
    ||| 0x09 <= n <= 0x0D
    ||| n == 0x20
    ||| n == 0x85
    ||| n == 0xA0
    ||| n == 0x1680
    ||| 0x2000 <= n <= 0x200A
    ||| n == 0x2028
    ||| n == 0x2029
    ||| n == 0x202F
    ||| n == 0x205F
    ||| n == 0x3000
}

/// Index of the first character at or after `i` that is not whitespace
/// (the length of `s` when there is none).
pub open spec fn skip_whitespace(s: Seq<char>, i: int) -> int
    decreases s.len() - i,
{
    if 0 <= i < s.len() && is_whitespace(s[i]) {
        skip_whitespace(s, i + 1)
    } else {
        i
    }
}

/// Index of the first whitespace character at or after `i`
/// (the length of `s` when there is none).
pub open spec fn skip_token(s: Seq<char>, i: int) -> int
    decreases s.len() - i,
{
    if 0 <= i < s.len() && !is_whitespace(s[i]) {
        skip_token(s, i + 1)
    } else {
        i
    }
}

/// The first maximal run of non-whitespace characters of `s`, if `s` has any.
pub open spec fn first_token(s: Seq<char>) -> Option<Seq<char>> {
    let start = skip_whitespace(s, 0);
    if start < s.len() {
        Some(s.subrange(start, skip_token(s, start)))
    } else {
        None
    }
}

/// Number of leading characters of `s`, counted from `i`, that equal `c`.
pub open spec fn skip_char(s: Seq<char>, c: char, i: int) -> int
    decreases s.len() - i,
{
    if 0 <= i < s.len() && s[i] == c {
        skip_char(s, c, i + 1)
    } else {
        i
    }
}

/// `s` without its leading run of `c`.
pub open spec fn strip_leading(s: Seq<char>, c: char) -> Seq<char> {
    s.subrange(skip_char(s, c, 0), s.len() as int)
}

/// `s` without leading and trailing whitespace.
pub open spec fn trimmed(s: Seq<char>) -> Seq<char>
    decreases s.len(),
{
    if s.len() > 0 && is_whitespace(s[0]) {
        trimmed(s.drop_first())
    } else if s.len() > 0 && is_whitespace(s.last()) {
        trimmed(s.drop_last())
    } else {
        s
    }
}

/// Index just past the `n`-th line feed of `s` counted from `i`
/// (the length of `s` when fewer than `n` line feeds follow `i`).
pub open spec fn after_lines(s: Seq<char>, n: nat, i: int) -> int
    decreases s.len() - i,
{
    if n == 0 || i < 0 || i >= s.len() {
        if i > s.len() { s.len() as int } else { i }
    } else if s[i] == '\n' {
        after_lines(s, (n - 1) as nat, i + 1)
    } else {
        after_lines(s, n, i + 1)
    }
}

/// `s` without its first `n` lines.
pub open spec fn drop_lines(s: Seq<char>, n: nat) -> Seq<char> {
    s.subrange(after_lines(s, n, 0), s.len() as int)
}

pub proof fn lemma_skip_whitespace_bounds(s: Seq<char>, i: int)
    requires
        0 <= i <= s.len(),
    ensures
        i <= skip_whitespace(s, i) <= s.len(),
        forall|j: int| i <= j < skip_whitespace(s, i) ==> is_whitespace(#[trigger] s[j]),
        skip_whitespace(s, i) < s.len() ==> !is_whitespace(s[skip_whitespace(s, i)]),
    decreases s.len() - i,
{
    if i < s.len() && is_whitespace(s[i]) {
        lemma_skip_whitespace_bounds(s, i + 1);
    }
}

pub proof fn lemma_skip_token_bounds(s: Seq<char>, i: int)
    requires
        0 <= i <= s.len(),
    ensures
        i <= skip_token(s, i) <= s.len(),
        forall|j: int| i <= j < skip_token(s, i) ==> !is_whitespace(#[trigger] s[j]),
        skip_token(s, i) < s.len() ==> is_whitespace(s[skip_token(s, i)]),
    decreases s.len() - i,
{
    if i < s.len() && !is_whitespace(s[i]) {
        lemma_skip_token_bounds(s, i + 1);
    }
}

pub proof fn lemma_after_lines_bounds(s: Seq<char>, n: nat, i: int)
    requires
        0 <= i <= s.len(),
    ensures
        i <= after_lines(s, n, i) <= s.len(),
    decreases s.len() - i,
{
    if n == 0 || i >= s.len() {
    } else if s[i] == '\n' {
        lemma_after_lines_bounds(s, (n - 1) as nat, i + 1);
    } else {
        lemma_after_lines_bounds(s, n, i + 1);
    }
}

/// The first token is a non-empty run without whitespace, preceded by whitespace
/// only and followed by whitespace or by the end of the text; a text has no first
/// token exactly when all of it is whitespace.
pub proof fn lemma_first_token_is_first(s: Seq<char>)
    ensures
        match first_token(s) {
            Some(t) => {
                let start = skip_whitespace(s, 0);
                let end = start + t.len();
                &&& t.len() > 0
                &&& 0 <= start < end <= s.len()
                &&& t == s.subrange(start, end)
                &&& forall|j: int| 0 <= j < start ==> is_whitespace(#[trigger] s[j])
                &&& forall|j: int| 0 <= j < t.len() ==> !is_whitespace(#[trigger] t[j])
                &&& end < s.len() ==> is_whitespace(s[end])
            },
            None => forall|j: int| 0 <= j < s.len() ==> is_whitespace(#[trigger] s[j]),
        },
{
    lemma_skip_whitespace_bounds(s, 0);
    let start = skip_whitespace(s, 0);
    if start < s.len() {
        lemma_skip_token_bounds(s, start);
    }
}

/// A token followed by whitespace is the first token of the text, whatever comes
/// after that whitespace.
pub proof fn lemma_first_token_ignores_tail(token: Seq<char>, gap: char, tail: Seq<char>)
    requires
        token.len() > 0,
        forall|j: int| 0 <= j < token.len() ==> !is_whitespace(#[trigger] token[j]),
        is_whitespace(gap),
    ensures
        first_token(token + seq![gap] + tail) == Some(token),
        first_token(token) == Some(token),
{
    let s = token + seq![gap] + tail;
    assert(!is_whitespace(s[0])) by {
        assert(s[0] == token[0]);
    }
    lemma_token_run(s, token.len() as int, 0);
    assert(s.subrange(0, token.len() as int) =~= token);
    assert(!is_whitespace(token[0]));
    lemma_token_run(token, token.len() as int, 0);
    assert(token.subrange(0, token.len() as int) =~= token);
}

/// A run of non-whitespace characters from `i` up to `end`, where whitespace or
/// the end of the text follows, is where `skip_token` stops.
proof fn lemma_token_run(s: Seq<char>, end: int, i: int)
    requires
        0 <= i <= end <= s.len(),
        forall|j: int| i <= j < end ==> !is_whitespace(#[trigger] s[j]),
        end < s.len() ==> is_whitespace(s[end]),
    ensures
        skip_token(s, i) == end,
    decreases end - i,
{
    if i < end {
        lemma_token_run(s, end, i + 1);
    }
}

/// Executable test for [`is_whitespace`].
pub fn char_is_whitespace(c: char) -> (r: bool)
    ensures
        r == is_whitespace(c),
{
    let n: u32 = c as u32;
    (0x09 <= n && n <= 0x0D) || n == 0x20 || n == 0x85 || n == 0xA0 || n == 0x1680 || (0x2000 <= n
        && n <= 0x200A) || n == 0x2028 || n == 0x2029 || n == 0x202F || n == 0x205F || n == 0x3000
}

/// The characters of `s`, in order.
pub fn chars_of(s: &str) -> (v: Vec<char>)
    ensures
        v@ == s@,
{
    let mut v: Vec<char> = Vec::new();
    for c in it: s.chars()
        invariant
            v@ == it.seq().take(it.index() as int),
            it.seq() == s@,
    {
        v.push(c);
    }
    v
}

/// Compares two texts character by character.
pub fn text_eq(a: &str, b: &str) -> (r: bool)
    ensures
        r == (a@ == b@),
{
    let x = chars_of(a);
    let y = chars_of(b);
    let n = x.len();
    if y.len() != n {
        return false;
    }
    let mut i: usize = 0;
    while i < n
        invariant
            x@ == a@,
            y@ == b@,
            n == x@.len(),
            n == y@.len(),
            i <= n,
            forall|j: int| 0 <= j < i ==> x@[j] == y@[j],
        decreases n - i,
    {
        if x[i] != y[i] {
            assert(x@[i as int] != y@[i as int]);
            return false;
        }
        i = i + 1;
    }
    assert(x@ =~= y@);
    true
}

/// The first whitespace-delimited token of `s`.
pub fn take_first_token(s: &str) -> (r: Option<String>)
    ensures
        match r {
            Some(t) => first_token(s@) == Some(t@),
            None => first_token(s@) is None,
        },
{
    let v = chars_of(s);
    let n = v.len();
    let mut start: usize = 0;
    while start < n && char_is_whitespace(v[start])
        invariant
            n == v@.len(),
            start <= n,
            skip_whitespace(v@, 0) == skip_whitespace(v@, start as int),
        decreases n - start,
    {
        start = start + 1;
    }
    if start >= n {
        return None;
    }
    let mut end: usize = start;
    while end < n && !char_is_whitespace(v[end])
        invariant
            n == v@.len(),
            start <= end <= n,
            skip_token(v@, start as int) == skip_token(v@, end as int),
        decreases n - end,
    {
        end = end + 1;
    }
    Some(s.substring_char(start, end).to_owned())
}

/// `s` without its leading run of `c`.
pub fn strip_leading_char(s: &str, c: char) -> (r: String)
    ensures
        r@ == strip_leading(s@, c),
{
    let v = chars_of(s);
    let n = v.len();
    let mut start: usize = 0;
    while start < n && v[start] == c
        invariant
            n == v@.len(),
            start <= n,
            skip_char(v@, c, 0) == skip_char(v@, c, start as int),
        decreases n - start,
    {
        start = start + 1;
    }
    s.substring_char(start, n).to_owned()
}

/// `s` without leading and trailing whitespace.
pub fn trim(s: &str) -> (r: String)
    ensures
        r@ == trimmed(s@),
{
    let v = chars_of(s);
    let mut start: usize = 0;
    let mut end: usize = v.len();
    assert(v@.subrange(0, end as int) =~= v@);
    while start < end && char_is_whitespace(v[start])
        invariant
            start <= end == v@.len(),
            trimmed(v@) == trimmed(v@.subrange(start as int, end as int)),
        decreases end - start,
    {
        assert(v@.subrange(start as int, end as int).drop_first() =~= v@.subrange(
            start + 1,
            end as int,
        ));
        start = start + 1;
    }
    while start < end && char_is_whitespace(v[end - 1])
        invariant
            start <= end <= v@.len(),
            start < end ==> !is_whitespace(v@[start as int]),
            trimmed(v@) == trimmed(v@.subrange(start as int, end as int)),
        decreases end - start,
    {
        assert(v@.subrange(start as int, end as int).drop_last() =~= v@.subrange(
            start as int,
            end - 1,
        ));
        end = end - 1;
    }
    s.substring_char(start, end).to_owned()
}

/// `s` without its first `n` lines: what follows the `n`-th line feed, and nothing
/// when `s` has fewer line feeds than `n`.
pub fn skip_lines(s: &str, n: usize) -> (r: String)
    ensures
        r@ == drop_lines(s@, n as nat),
{
    let v = chars_of(s);
    let len = v.len();
    let mut left: usize = n;
    let mut i: usize = 0;
    proof {
        lemma_after_lines_bounds(v@, n as nat, 0);
    }
    while left > 0 && i < len
        invariant
            len == v@.len(),
            i <= len,
            after_lines(v@, n as nat, 0) == after_lines(v@, left as nat, i as int),
        decreases len - i,
    {
        if v[i] == '\n' {
            left = left - 1;
        }
        i = i + 1;
    }
    s.substring_char(i, len).to_owned()
}

} // verus!
