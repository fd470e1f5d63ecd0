//! The suffix list loader.
//!
//! Each line of a suffix file, once trimmed, is accepted when it consists
//! only of ASCII letters, digits, `_`, `.`, `-` and whitespace, and is not
//! empty.  Accepted lines form the suffix set; every other line is handed
//! back for logging, unless it begins with the comment prefix.

use vstd::prelude::*;

use crate::lines::{is_space, trim, trim_spec};

verus! {

/// A character accepted inside a suffix.
pub open spec fn is_suffix_char(c: char) -> bool {
    ('a' <= c && c <= 'z') || ('A' <= c && c <= 'Z') || ('0' <= c && c <= '9') || c == '_' || c
        == '.' || c == '-' || is_space(c)
}

/// A usable suffix: non-empty and made of accepted characters only.
pub open spec fn is_valid_suffix(s: Seq<char>) -> bool {
    s.len() > 0 && (forall|i: int| 0 <= i < s.len() ==> is_suffix_char(s[i]))
}

fn suffix_char(c: char) -> (r: bool)
    ensures
        r == is_suffix_char(c),
{
    ('a' <= c && c <= 'z') || ('A' <= c && c <= 'Z') || ('0' <= c && c <= '9') || c == '_' || c
        == '.' || c == '-' || crate::lines::space_char(c)
}

/// Whether the trimmed line is a usable suffix.
pub fn valid_suffix(s: &str) -> (r: bool)
    ensures
        r == is_valid_suffix(s@),
{
    let n = s.unicode_len();
    if n == 0 {
        return false;
    }
    let mut i: usize = 0;
    while i < n
        invariant
            n == s@.len(),
            0 <= i <= n,
            forall|m: int| 0 <= m < i ==> is_suffix_char(s@[m]),
        decreases n - i,
    {
        if !suffix_char(s.get_char(i)) {
            return false;
        }
        i = i + 1;
    }
    true
}

/// The suffixes kept from the given lines: each line trimmed, the valid
/// ones in order.
pub open spec fn spec_kept_suffixes(lines: Seq<Seq<char>>) -> Seq<Seq<char>>
    decreases lines.len(),
{
    if lines.len() == 0 {
        seq![]
    } else {
        let rest = spec_kept_suffixes(lines.drop_last());
        let t = trim_spec(lines.last());
        if is_valid_suffix(t) {
            rest.push(t)
        } else {
            rest
        }
    }
}

/// The trimmed lines that are dropped and must be reported: not valid and
/// not comments.
pub open spec fn spec_rejected_suffixes(lines: Seq<Seq<char>>, prefix: Seq<char>) -> Seq<
    Seq<char>,
>
    decreases lines.len(),
{
    if lines.len() == 0 {
        seq![]
    } else {
        let rest = spec_rejected_suffixes(lines.drop_last(), prefix);
        let t = trim_spec(lines.last());
        if !is_valid_suffix(t) && !prefix.is_prefix_of(t) {
            rest.push(t)
        } else {
            rest
        }
    }
}

/// What reading a suffix list produces: the suffixes kept, and the dropped
/// lines that are to be reported.
pub struct SuffixLoad {
    pub kept: Vec<String>,
    pub rejected: Vec<String>,
}

/// Reads suffixes from the lines of a suffix file.
///
/// A line is kept exactly when its trimmed form is a valid suffix; it is
/// handed back in `rejected` exactly when it is not valid and does not begin
/// with `comment_prefix`, so that the caller can report it.
pub fn read_suffixes(file_lines: &Vec<String>, comment_prefix: &str) -> (r: SuffixLoad)
    ensures
        r.kept.deep_view() == spec_kept_suffixes(file_lines.deep_view()),
        r.rejected.deep_view() == spec_rejected_suffixes(
            file_lines.deep_view(),
            comment_prefix@,
        ),
{
    let ghost all = file_lines.deep_view();
    let mut kept: Vec<String> = Vec::new();
    let mut rejected: Vec<String> = Vec::new();
    let mut i: usize = 0;
    while i < file_lines.len()
        invariant
            0 <= i <= file_lines.len(),
            all == file_lines.deep_view(),
            kept.deep_view() == spec_kept_suffixes(all.take(i as int)),
            rejected.deep_view() == spec_rejected_suffixes(all.take(i as int), comment_prefix@),
        decreases file_lines.len() - i,
    {
        let ghost kept_prev = kept.deep_view();
        let ghost rejected_prev = rejected.deep_view();
        let t = trim(file_lines[i].as_str());
        proof {
            assert(all[i as int] == file_lines@[i as int]@);
            assert(t@ == trim_spec(all[i as int]));
        }
        if valid_suffix(t.as_str()) {
            kept.push(t);
            proof {
                assert(kept.deep_view() =~= kept_prev.push(trim_spec(all[i as int])));
            }
        } else if !crate::lines::starts_with(t.as_str(), comment_prefix) {
            rejected.push(t);
            proof {
                assert(rejected.deep_view() =~= rejected_prev.push(trim_spec(all[i as int])));
            }
        }
        proof {
            assert(all.take(i + 1).drop_last() =~= all.take(i as int));
            assert(all.take(i + 1).last() == all[i as int]);
        }
        i = i + 1;
    }
    proof {
        assert(all.take(file_lines.len() as int) =~= all);
    }
    SuffixLoad { kept, rejected }
}

/// No suffix line is silently lost: a line whose trimmed form is a valid
/// suffix is in the kept set; a line that is neither valid nor a comment is
/// in the rejected set; and nothing else is in either.
pub proof fn lemma_suffix_lines_accounted(lines: Seq<Seq<char>>, prefix: Seq<char>, t: Seq<char>)
    ensures
        spec_kept_suffixes(lines).contains(t) <==> (is_valid_suffix(t) && exists|i: int|
            0 <= i < lines.len() && trim_spec(lines[i]) == t),
        spec_rejected_suffixes(lines, prefix).contains(t) <==> (!is_valid_suffix(t)
            && !prefix.is_prefix_of(t) && exists|i: int|
            0 <= i < lines.len() && trim_spec(lines[i]) == t),
    decreases lines.len(),
{
    if lines.len() == 0 {
    } else {
        let shorter = lines.drop_last();
        lemma_suffix_lines_accounted(shorter, prefix, t);
        let last = trim_spec(lines.last());
        let kept = spec_kept_suffixes(lines);
        let kept_rest = spec_kept_suffixes(shorter);
        let rej = spec_rejected_suffixes(lines, prefix);
        let rej_rest = spec_rejected_suffixes(shorter, prefix);

        assert forall|s: Seq<Seq<char>>, x: Seq<char>, y: Seq<char>| #[trigger]
            s.push(x).contains(y) == (s.contains(y) || x == y) by {
            if s.contains(y) {
                let w = choose|w: int| 0 <= w < s.len() && s[w] == y;
                assert(s.push(x)[w] == y);
            }
            if x == y {
                assert(s.push(x)[s.len() as int] == y);
            }
            if s.push(x).contains(y) {
                let w = choose|w: int| 0 <= w < s.push(x).len() && s.push(x)[w] == y;
                if w < s.len() {
                    assert(s[w] == y);
                }
            }
        }

        if kept.contains(t) {
            if is_valid_suffix(last) && t == last {
                assert(trim_spec(lines[lines.len() - 1]) == t);
            } else {
                assert(kept_rest.contains(t));
                let w = choose|w: int|
                    0 <= w < shorter.len() && trim_spec(shorter[w]) == t;
                assert(trim_spec(lines[w]) == t);
            }
        }
        if is_valid_suffix(t) && (exists|i: int| 0 <= i < lines.len() && trim_spec(lines[i])
            == t) {
            let w = choose|w: int| 0 <= w < lines.len() && trim_spec(lines[w]) == t;
            if w < lines.len() - 1 {
                assert(trim_spec(shorter[w]) == t);
                assert(kept_rest.contains(t));
            } else {
                assert(last == t);
            }
        }
        if rej.contains(t) {
            if !is_valid_suffix(last) && !prefix.is_prefix_of(last) && t == last {
                assert(trim_spec(lines[lines.len() - 1]) == t);
            } else {
                assert(rej_rest.contains(t));
                let w = choose|w: int|
                    0 <= w < shorter.len() && trim_spec(shorter[w]) == t;
                assert(trim_spec(lines[w]) == t);
            }
        }
        if !is_valid_suffix(t) && !prefix.is_prefix_of(t) && (exists|i: int|
            0 <= i < lines.len() && trim_spec(lines[i]) == t) {
            let w = choose|w: int| 0 <= w < lines.len() && trim_spec(lines[w]) == t;
            if w < lines.len() - 1 {
                assert(trim_spec(shorter[w]) == t);
                assert(rej_rest.contains(t));
            } else {
                assert(last == t);
            }
        }
    }
}

} // verus!
