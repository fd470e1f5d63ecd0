//! Line-oriented text handling shared by the suffix and exclusion loaders:
//! trimming surrounding whitespace and recognising comment lines.

use vstd::prelude::*;

verus! {

/// Characters stripped from the ends of a configuration line, and accepted
/// as interior whitespace in a suffix: the characters with the Unicode
/// White_Space property.
pub open spec fn is_space(c: char) -> bool {
    ('\u{9}' <= c && c <= '\u{d}') || c == ' ' || c == '\u{85}' || c == '\u{a0}' || c
        == '\u{1680}' || ('\u{2000}' <= c && c <= '\u{200a}') || c == '\u{2028}' || c
        == '\u{2029}' || c == '\u{202f}' || c == '\u{205f}' || c == '\u{3000}'
}

/// The line with leading whitespace removed.
pub open spec fn trim_front(s: Seq<char>) -> Seq<char>
    decreases s.len(),
{
    if s.len() > 0 && is_space(s[0]) {
        trim_front(s.skip(1))
    } else {
        s
    }
}

/// The line with trailing whitespace removed.
pub open spec fn trim_back(s: Seq<char>) -> Seq<char>
    decreases s.len(),
{
    if s.len() > 0 && is_space(s.last()) {
        trim_back(s.drop_last())
    } else {
        s
    }
}

/// The line with whitespace removed from both ends.
pub open spec fn trim_spec(s: Seq<char>) -> Seq<char> {
    trim_back(trim_front(s))
}

pub(crate) fn space_char(c: char) -> (r: bool)
    ensures
        r == is_space(c),
{
    ('\u{9}' <= c && c <= '\u{d}') || c == ' ' || c == '\u{85}' || c == '\u{a0}' || c
        == '\u{1680}' || ('\u{2000}' <= c && c <= '\u{200a}') || c == '\u{2028}' || c
        == '\u{2029}' || c == '\u{202f}' || c == '\u{205f}' || c == '\u{3000}'
}

proof fn lemma_trim_front_at(s: Seq<char>, lo: int)
    requires
        0 <= lo <= s.len(),
        forall|m: int| 0 <= m < lo ==> is_space(s[m]),
        lo == s.len() || !is_space(s[lo]),
    ensures
        trim_front(s) == s.skip(lo),
    decreases lo,
{
    if lo == 0 {
        assert(s.skip(0) =~= s);
    } else {
        assert(is_space(s[0]));
        lemma_trim_front_at(s.skip(1), lo - 1);
        assert(s.skip(1).skip(lo - 1) =~= s.skip(lo));
    }
}

proof fn lemma_trim_back_at(s: Seq<char>, hi: int)
    requires
        0 <= hi <= s.len(),
        forall|m: int| hi <= m < s.len() ==> is_space(s[m]),
        hi == 0 || !is_space(s[hi - 1]),
    ensures
        trim_back(s) == s.take(hi),
    decreases s.len(),
{
    if hi == s.len() {
        assert(s.take(hi) =~= s);
    } else {
        assert(is_space(s.last()));
        lemma_trim_back_at(s.drop_last(), hi);
        assert(s.drop_last().take(hi) =~= s.take(hi));
    }
}

/// The line with whitespace removed from both ends.
pub fn trim(s: &str) -> (r: String)
    ensures
        r@ == trim_spec(s@),
{
    let n = s.unicode_len();
    let mut lo: usize = 0;
    while lo < n && space_char(s.get_char(lo))
        invariant
            n == s@.len(),
            0 <= lo <= n,
            forall|m: int| 0 <= m < lo ==> is_space(s@[m]),
        decreases n - lo,
    {
        lo = lo + 1;
    }
    let mut hi: usize = n;
    while hi > lo && space_char(s.get_char(hi - 1))
        invariant
            n == s@.len(),
            lo <= hi <= n,
            forall|m: int| hi <= m < n ==> is_space(s@[m]),
        decreases hi,
    {
        hi = hi - 1;
    }
    proof {
        lemma_trim_front_at(s@, lo as int);
        lemma_trim_back_at(s@.skip(lo as int), hi - lo);
        assert(s@.skip(lo as int).take(hi - lo) =~= s@.subrange(lo as int, hi as int));
    }
    s.substring_char(lo, hi).to_owned()
}

/// Whether `prefix` begins the line; used to recognise comments.
pub fn starts_with(s: &str, prefix: &str) -> (r: bool)
    ensures
        r == prefix@.is_prefix_of(s@),
{
    let np = prefix.unicode_len();
    let ns = s.unicode_len();
    if np > ns {
        return false;
    }
    let mut i: usize = 0;
    while i < np
        invariant
            np == prefix@.len(),
            ns == s@.len(),
            np <= ns,
            0 <= i <= np,
            forall|m: int| 0 <= m < i ==> prefix@[m] == s@[m],
        decreases np - i,
    {
        if s.get_char(i) != prefix.get_char(i) {
            assert(!prefix@.is_prefix_of(s@)) by {
                assert(prefix@[i as int] != s@.subrange(0, np as int)[i as int]);
            }
            return false;
        }
        i = i + 1;
    }
    assert(prefix@ =~= s@.subrange(0, np as int));
    true
}

/// Whether `suffix` ends the string; the heart of suffix selection.
pub fn ends_with(s: &str, suffix: &str) -> (r: bool)
    ensures
        r == suffix@.is_suffix_of(s@),
{
    let nx = suffix.unicode_len();
    let ns = s.unicode_len();
    if nx > ns {
        return false;
    }
    let off = ns - nx;
    let mut i: usize = 0;
    while i < nx
        invariant
            nx == suffix@.len(),
            ns == s@.len(),
            nx <= ns,
            off == ns - nx,
            0 <= i <= nx,
            forall|m: int| 0 <= m < i ==> suffix@[m] == s@[off + m],
        decreases nx - i,
    {
        if s.get_char(off + i) != suffix.get_char(i) {
            assert(!suffix@.is_suffix_of(s@)) by {
                assert(suffix@[i as int] != s@.subrange(
                    off as int,
                    ns as int,
                )[i as int]);
            }
            return false;
        }
        i = i + 1;
    }
    assert(suffix@ =~= s@.subrange(off as int, ns as int));
    true
}

} // verus!
