//! Unwrapping a reply that comes inside a Markdown code fence.
use vstd::prelude::*;

use crate::template::chars_of;

verus! {

/// White space in the Unicode sense (the `White_Space` property).
pub open spec fn is_space(c: char) -> bool {
    ('\t' <= c && c <= '\r') || c == ' ' || c == '\u{85}' || c == '\u{a0}' || c == '\u{1680}' || (
    '\u{2000}' <= c && c <= '\u{200a}') || c == '\u{2028}' || c == '\u{2029}' || c == '\u{202f}'
        || c == '\u{205f}' || c == '\u{3000}'
}

/// Three backticks start at index `p` of `s`.
pub open spec fn fence_at(s: Seq<char>, p: int) -> bool {
    0 <= p && p + 3 <= s.len() && s[p] == '`' && s[p + 1] == '`' && s[p + 2] == '`'
}

/// The first line feed at or after `k`, or the length of `s`.
pub open spec fn line_end(s: Seq<char>, k: int) -> int
    decreases s.len() - k,
{
    if 0 <= k < s.len() && s[k] != '\n' {
        line_end(s, k + 1)
    } else {
        k
    }
}

/// The first index at or after `k` that is not white space.
pub open spec fn space_end(s: Seq<char>, k: int) -> int
    decreases s.len() - k,
{
    if 0 <= k < s.len() && is_space(s[k]) {
        space_end(s, k + 1)
    } else {
        k
    }
}

/// One past the last index before `k` that is not white space, or 0.
pub open spec fn space_start(s: Seq<char>, k: int) -> int
    decreases k,
{
    if 0 < k <= s.len() && is_space(s[k - 1]) {
        space_start(s, k - 1)
    } else {
        k
    }
}

/// `s` without its leading and trailing white space.
pub open spec fn trimmed(s: Seq<char>) -> Seq<char> {
    if space_end(s, 0) == s.len() {
        seq![]
    } else {
        s.subrange(space_end(s, 0), space_start(s, s.len() as int))
    }
}

/// A line feed at `g` ends a fenced body: after it, possibly after white
/// space, comes a closing fence.
pub open spec fn closes_at(s: Seq<char>, g: int) -> bool {
    0 <= g < s.len() && s[g] == '\n' && fence_at(s, space_end(s, g + 1))
}

/// The first index at or after `g` that ends a fenced body.
pub open spec fn close_from(s: Seq<char>, g: int) -> Option<int>
    decreases s.len() - g,
{
    if 0 <= g < s.len() {
        if closes_at(s, g) {
            Some(g)
        } else {
            close_from(s, g + 1)
        }
    } else {
        None
    }
}

/// The body `[start, end)` of a fenced block whose opening fence is at `p`:
/// the fence and the rest of its line, then the body up to the first line
/// feed that a closing fence follows.
pub open spec fn block_at(s: Seq<char>, p: int) -> Option<(int, int)> {
    if fence_at(s, p) && line_end(s, p + 3) < s.len() {
        match close_from(s, line_end(s, p + 3) + 1) {
            Some(g) => Some((line_end(s, p + 3) + 1, g)),
            None => None,
        }
    } else {
        None
    }
}

/// The body of the leftmost fenced block that opens at `p` or later.
pub open spec fn block_from(s: Seq<char>, p: int) -> Option<(int, int)>
    decreases s.len() - p,
{
    if 0 <= p < s.len() {
        if block_at(s, p) is Some {
            block_at(s, p)
        } else {
            block_from(s, p + 1)
        }
    } else {
        None
    }
}

/// The body of the leftmost fenced block of `s`.
pub open spec fn fenced_block(s: Seq<char>) -> Option<(int, int)> {
    block_from(s, 0)
}

/// Whether `c` is white space.
pub fn is_space_char(c: char) -> (r: bool)
    ensures
        r == is_space(c),
{
    ('\t' <= c && c <= '\r') || c == ' ' || c == '\u{85}' || c == '\u{a0}' || c == '\u{1680}' || (
    '\u{2000}' <= c && c <= '\u{200a}') || c == '\u{2028}' || c == '\u{2029}' || c == '\u{202f}'
        || c == '\u{205f}' || c == '\u{3000}'
}

fn fence_at_index(c: &Vec<char>, p: usize) -> (r: bool)
    ensures
        r == fence_at(c@, p as int),
{
    p < c.len() && c.len() - p >= 3 && c[p] == '`' && c[p + 1] == '`' && c[p + 2] == '`'
}

fn line_end_index(c: &Vec<char>, k: usize) -> (r: usize)
    requires
        k <= c@.len(),
    ensures
        r as int == line_end(c@, k as int),
        k <= r <= c@.len(),
{
    let mut i = k;
    while i < c.len() && c[i] != '\n'
        invariant
            k <= i <= c@.len(),
            line_end(c@, k as int) == line_end(c@, i as int),
        decreases c@.len() - i,
    {
        i = i + 1;
    }
    i
}

fn space_end_index(c: &Vec<char>, k: usize) -> (r: usize)
    requires
        k <= c@.len(),
    ensures
        r as int == space_end(c@, k as int),
        k <= r <= c@.len(),
        r < c@.len() ==> !is_space(c@[r as int]),
{
    let mut i = k;
    while i < c.len() && is_space_char(c[i])
        invariant
            k <= i <= c@.len(),
            space_end(c@, k as int) == space_end(c@, i as int),
        decreases c@.len() - i,
    {
        i = i + 1;
    }
    i
}

fn close_from_index(c: &Vec<char>, g: usize) -> (r: Option<usize>)
    requires
        g <= c@.len(),
    ensures
        r matches Some(e) ==> close_from(c@, g as int) == Some(e as int) && g <= e < c@.len(),
        r.is_none() ==> close_from(c@, g as int).is_none(),
{
    let mut i = g;
    while i < c.len()
        invariant
            g <= i <= c@.len(),
            close_from(c@, g as int) == close_from(c@, i as int),
        decreases c@.len() - i,
    {
        if c[i] == '\n' && fence_at_index(c, space_end_index(c, i + 1)) {
            return Some(i);
        }
        i = i + 1;
    }
    None
}

fn block_at_index(c: &Vec<char>, p: usize) -> (r: Option<(usize, usize)>)
    requires
        p < c@.len(),
    ensures
        r matches Some(b) ==> block_at(c@, p as int) == Some((b.0 as int, b.1 as int)) && b.0
            <= b.1 <= c@.len(),
        r.is_none() ==> block_at(c@, p as int).is_none(),
{
    let n = c.len();
    if !fence_at_index(c, p) {
        return None;
    }
    assert(p + 3 <= n);
    let q = line_end_index(c, p + 3);
    if q >= c.len() {
        return None;
    }
    match close_from_index(c, q + 1) {
        Some(g) => Some((q + 1, g)),
        None => None,
    }
}

/// The body `[start, end)`, in characters, of the leftmost fenced block of
/// `s`, if there is one.
pub fn fenced_block_span(s: &str) -> (r: Option<(usize, usize)>)
    ensures
        r matches Some(b) ==> fenced_block(s@) == Some((b.0 as int, b.1 as int)) && b.0 <= b.1
            <= s@.len(),
        r.is_none() ==> fenced_block(s@).is_none(),
{
    let c = chars_of(s);
    let mut p: usize = 0;
    while p < c.len()
        invariant
            c@ == s@,
            p <= c@.len(),
            fenced_block(s@) == block_from(s@, p as int),
        decreases c@.len() - p,
    {
        match block_at_index(&c, p) {
            Some(b) => {
                return Some(b);
            },
            None => {},
        }
        p = p + 1;
    }
    None
}


/// `s` without its leading and trailing white space.
pub fn trim_spaces(s: &str) -> (r: String)
    ensures
        r@ == trimmed(s@),
{
    let c = chars_of(s);
    let n = c.len();
    let a = space_end_index(&c, 0);
    if a == n {
        let r = String::from_str("");
        proof {
            reveal_strlit("");
            assert(r@ =~= trimmed(s@));
        }
        return r;
    }
    let mut b = n;
    while b > 0 && is_space_char(c[b - 1])
        invariant
            c@ == s@,
            n == c@.len(),
            a < b <= n,
            !is_space(c@[a as int]),
            space_start(c@, n as int) == space_start(c@, b as int),
        decreases b,
    {
        assert(b - 1 != a);
        b = b - 1;
    }
    String::from_str(s.substring_char(a, b))
}

/// The reply inside the leftmost fenced block of `s`, without surrounding
/// white space; `s` itself when it holds no fenced block.
pub fn strip_markdown_code_block(s: String) -> (r: String)
    ensures
        fenced_block(s@) matches Some(b) ==> r@ == trimmed(s@.subrange(b.0, b.1)),
        fenced_block(s@).is_none() ==> r@ == s@,
{
    match fenced_block_span(s.as_str()) {
        Some((a, b)) => trim_spaces(s.as_str().substring_char(a, b)),
        None => s,
    }
}

} // verus!
