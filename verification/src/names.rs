//! Comparing display names the way the captain rule asks: surrounding
//! whitespace is ignored and ASCII letters are compared without case.

use vstd::prelude::*;

verus! {

/// The characters `str::trim` removes: Unicode whitespace.
pub open spec fn is_space(c: char) -> bool {
    c == ' ' || c == '\t' || c == '\n' || c == '\r' || c == '\u{0b}' || c == '\u{0c}'
        || c == '\u{85}' || c == '\u{a0}' || c == '\u{1680}' || c == '\u{2000}' || c == '\u{2001}'
        || c == '\u{2002}' || c == '\u{2003}' || c == '\u{2004}' || c == '\u{2005}'
        || c == '\u{2006}' || c == '\u{2007}' || c == '\u{2008}' || c == '\u{2009}'
        || c == '\u{200a}' || c == '\u{2028}' || c == '\u{2029}' || c == '\u{202f}'
        || c == '\u{205f}' || c == '\u{3000}'
}

fn is_space_char(c: char) -> (r: bool)
    ensures
        r == is_space(c),
{
    c == ' ' || c == '\t' || c == '\n' || c == '\r' || c == '\u{0b}' || c == '\u{0c}'
        || c == '\u{85}' || c == '\u{a0}' || c == '\u{1680}' || c == '\u{2000}' || c == '\u{2001}'
        || c == '\u{2002}' || c == '\u{2003}' || c == '\u{2004}' || c == '\u{2005}'
        || c == '\u{2006}' || c == '\u{2007}' || c == '\u{2008}' || c == '\u{2009}'
        || c == '\u{200a}' || c == '\u{2028}' || c == '\u{2029}' || c == '\u{202f}'
        || c == '\u{205f}' || c == '\u{3000}'
}

/// A character's comparison key once ASCII upper-case letters are folded onto
/// their lower-case forms; every other character keeps its own code point.
pub open spec fn fold_key(c: char) -> int {
    if 65 <= c as int <= 90 {
        c as int + 32
    } else {
        c as int
    }
}

pub fn fold_key_char(c: char) -> (r: u32)
    ensures
        r as int == fold_key(c),
{
    let u = c as u32;
    if 65 <= u && u <= 90 {
        u + 32
    } else {
        u
    }
}

/// How many whitespace characters the name starts with.
pub open spec fn leading_spaces(s: Seq<char>) -> int
    decreases s.len(),
{
    if s.len() == 0 {
        0
    } else if !is_space(s[0]) {
        0
    } else {
        1 + leading_spaces(s.drop_first())
    }
}

/// How many whitespace characters the name ends with.
pub open spec fn trailing_spaces(s: Seq<char>) -> int
    decreases s.len(),
{
    if s.len() == 0 {
        0
    } else if !is_space(s.last()) {
        0
    } else {
        1 + trailing_spaces(s.drop_last())
    }
}

/// The name with leading and trailing whitespace removed.
pub open spec fn spec_trim(s: Seq<char>) -> Seq<char> {
    let rest = s.skip(leading_spaces(s));
    rest.take(rest.len() - trailing_spaces(rest))
}

/// Two names stand for the same person: after trimming, they have the same
/// characters up to ASCII case.
pub open spec fn names_equal_folded(a: Seq<char>, b: Seq<char>) -> bool {
    let ta = spec_trim(a);
    let tb = spec_trim(b);
    ta.len() == tb.len() && forall|i: int| 0 <= i < ta.len() ==> fold_key(ta[i]) == fold_key(tb[i])
}

proof fn lemma_leading_spaces_at(s: Seq<char>, i: int)
    requires
        0 <= i <= s.len(),
        forall|k: int| 0 <= k < i ==> is_space(s[k]),
        i < s.len() ==> !is_space(s[i]),
    ensures
        leading_spaces(s) == i,
    decreases i,
{
    if i > 0 {
        assert(is_space(s[0]));
        assert(forall|k: int| 0 <= k < i - 1 ==> is_space(#[trigger] s.drop_first()[k]));
        lemma_leading_spaces_at(s.drop_first(), i - 1);
    }
}

proof fn lemma_trailing_spaces_at(s: Seq<char>, j: int)
    requires
        0 <= j <= s.len(),
        forall|k: int| j <= k < s.len() ==> is_space(s[k]),
        j > 0 ==> !is_space(s[j - 1]),
    ensures
        trailing_spaces(s) == s.len() - j,
    decreases s.len() - j,
{
    if j < s.len() {
        assert(is_space(s.last()));
        assert(forall|k: int| j <= k < s.drop_last().len() ==> is_space(#[trigger] s.drop_last()[k]));
        lemma_trailing_spaces_at(s.drop_last(), j);
    }
}

/// Bounds of the trimmed middle of a name: the index of its first character
/// and the index just past its last.
fn trim_bounds(s: &str) -> (bounds: (usize, usize))
    ensures
        bounds.0 <= bounds.1 <= s@.len(),
        spec_trim(s@) == s@.subrange(bounds.0 as int, bounds.1 as int),
{
    let n = s.unicode_len();
    let mut start: usize = 0;
    while start < n && is_space_char(s.get_char(start))
        invariant
            0 <= start <= n,
            n == s@.len(),
            forall|k: int| 0 <= k < start ==> is_space(s@[k]),
        decreases n - start,
    {
        start += 1;
    }
    proof {
        lemma_leading_spaces_at(s@, start as int);
    }
    let mut end: usize = n;
    while end > start && is_space_char(s.get_char(end - 1))
        invariant
            start <= end <= n,
            n == s@.len(),
            forall|k: int| 0 <= k < start ==> is_space(s@[k]),
            start < n ==> !is_space(s@[start as int]),
            forall|k: int| end <= k < n ==> is_space(s@[k]),
        decreases end,
    {
        end -= 1;
    }
    proof {
        let rest = s@.skip(start as int);
        assert(forall|k: int|
            0 <= k < rest.len() ==> rest[k] == s@[k + start]);
        if end > start {
            lemma_trailing_spaces_at(rest, end - start);
        } else {
            // everything from `start` on is whitespace, and `start` itself is
            // past the leading run only when the string is all whitespace
            assert(start == end);
            lemma_trailing_spaces_at(rest, 0);
        }
        assert(spec_trim(s@) =~= s@.subrange(start as int, end as int));
    }
    (start, end)
}

/// Do two display names match once surrounding whitespace is ignored and
/// ASCII case is folded? This is the comparison behind the captain rule.
pub fn names_match(a: &str, b: &str) -> (r: bool)
    ensures
        r == names_equal_folded(a@, b@),
{
    let (a_start, a_end) = trim_bounds(a);
    let (b_start, b_end) = trim_bounds(b);
    let a_len = a_end - a_start;
    let b_len = b_end - b_start;
    if a_len != b_len {
        return false;
    }
    let ghost ta = spec_trim(a@);
    let ghost tb = spec_trim(b@);
    let mut i: usize = 0;
    while i < a_len
        invariant
            0 <= i <= a_len,
            a_len == b_len,
            a_start + a_len <= a@.len(),
            b_start + b_len <= b@.len(),
            ta == spec_trim(a@),
            tb == spec_trim(b@),
            ta == a@.subrange(a_start as int, a_end as int),
            tb == b@.subrange(b_start as int, b_end as int),
            a_end == a_start + a_len,
            b_end == b_start + b_len,
            forall|k: int| 0 <= k < i ==> fold_key(ta[k]) == fold_key(tb[k]),
        decreases a_len - i,
    {
        let ca = a.get_char(a_start + i);
        let cb = b.get_char(b_start + i);
        if fold_key_char(ca) != fold_key_char(cb) {
            assert(fold_key(ta[i as int]) != fold_key(tb[i as int]));
            return false;
        }
        i += 1;
    }
    true
}

/// Is the name blank: empty, or nothing but whitespace?
pub fn is_blank(s: &str) -> (blank: bool)
    ensures
        blank == (spec_trim(s@).len() == 0),
{
    let (start, end) = trim_bounds(s);
    start == end
}

} // verus!
