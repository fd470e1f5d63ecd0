//! The exclusion list loader.
//!
//! Each line of an exclusion file, once trimmed, is kept when it is not a
//! comment, is an absolute path, and names a directory that exists.  Whether
//! a trimmed line names an existing directory is a fact about the disk, so
//! the caller probes it and passes the answers in; everything else is
//! decided here.

use vstd::prelude::*;

use crate::lines::{trim, trim_spec};
use crate::paths::{spec_parse, FsPath, PathModel};

verus! {

/// Whether a trimmed line is kept as an exclusion, given whether it names
/// an existing directory.
pub open spec fn exclusion_kept(t: Seq<char>, is_dir: bool, prefix: Seq<char>) -> bool {
    !prefix.is_prefix_of(t) && spec_parse(t).absolute && is_dir
}

/// The exclusions kept from the given lines, in order, as parsed paths.
/// `dirs[i]` says whether the trimmed line `i` names an existing directory.
pub open spec fn spec_kept_exclusions(
    file_lines: Seq<Seq<char>>,
    dirs: Seq<bool>,
    prefix: Seq<char>,
) -> Seq<PathModel>
    decreases file_lines.len(),
{
    if file_lines.len() == 0 {
        seq![]
    } else {
        let n = file_lines.len() as int;
        let rest = spec_kept_exclusions(file_lines.drop_last(), dirs.take(n - 1), prefix);
        let t = trim_spec(file_lines.last());
        if exclusion_kept(t, dirs[n - 1], prefix) {
            rest.push(spec_parse(t))
        } else {
            rest
        }
    }
}

/// The trimmed lines dropped for not being absolute paths: not comments,
/// not beginning with `/`.
pub open spec fn spec_not_absolute(file_lines: Seq<Seq<char>>, prefix: Seq<char>) -> Seq<
    Seq<char>,
>
    decreases file_lines.len(),
{
    if file_lines.len() == 0 {
        seq![]
    } else {
        let rest = spec_not_absolute(file_lines.drop_last(), prefix);
        let t = trim_spec(file_lines.last());
        if !prefix.is_prefix_of(t) && !spec_parse(t).absolute {
            rest.push(t)
        } else {
            rest
        }
    }
}

/// The trimmed lines dropped for not naming an existing directory: not
/// comments, absolute, but the probe said no.
pub open spec fn spec_not_directories(
    file_lines: Seq<Seq<char>>,
    dirs: Seq<bool>,
    prefix: Seq<char>,
) -> Seq<Seq<char>>
    decreases file_lines.len(),
{
    if file_lines.len() == 0 {
        seq![]
    } else {
        let n = file_lines.len() as int;
        let rest = spec_not_directories(file_lines.drop_last(), dirs.take(n - 1), prefix);
        let t = trim_spec(file_lines.last());
        if !prefix.is_prefix_of(t) && spec_parse(t).absolute && !dirs[n - 1] {
            rest.push(t)
        } else {
            rest
        }
    }
}

/// What reading an exclusion list produces: the exclusions kept, and the
/// two kinds of dropped lines that are to be reported.  Comment lines are
/// skipped silently.
pub struct ExclusionLoad {
    pub kept: Vec<FsPath>,
    pub not_absolute: Vec<String>,
    pub not_directories: Vec<String>,
}

/// Reads exclusions from the lines of an exclusion file.
///
/// `is_directory[i]` must be the caller's answer to whether the trimmed
/// line `i` names an existing directory.  A line is kept exactly when it is
/// not a comment, is absolute, and its probe answer is true; the two
/// rejected lists hold exactly the non-comment lines that fail the absolute
/// test and the directory test, for the caller to report.
pub fn read_exclusions(
    file_lines: &Vec<String>,
    is_directory: &Vec<bool>,
    comment_prefix: &str,
) -> (r: ExclusionLoad)
    requires
        file_lines@.len() == is_directory@.len(),
    ensures
        r.kept.deep_view() == spec_kept_exclusions(
            file_lines.deep_view(),
            is_directory@,
            comment_prefix@,
        ),
        r.not_absolute.deep_view() == spec_not_absolute(file_lines.deep_view(), comment_prefix@),
        r.not_directories.deep_view() == spec_not_directories(
            file_lines.deep_view(),
            is_directory@,
            comment_prefix@,
        ),
{
    let ghost all = file_lines.deep_view();
    let ghost dirs = is_directory@;
    let mut kept: Vec<FsPath> = Vec::new();
    let mut not_absolute: Vec<String> = Vec::new();
    let mut not_directories: Vec<String> = Vec::new();
    let mut i: usize = 0;
    while i < file_lines.len()
        invariant
            0 <= i <= file_lines.len(),
            all == file_lines.deep_view(),
            dirs == is_directory@,
            all.len() == dirs.len(),
            kept.deep_view() == spec_kept_exclusions(
                all.take(i as int),
                dirs.take(i as int),
                comment_prefix@,
            ),
            not_absolute.deep_view() == spec_not_absolute(all.take(i as int), comment_prefix@),
            not_directories.deep_view() == spec_not_directories(
                all.take(i as int),
                dirs.take(i as int),
                comment_prefix@,
            ),
        decreases file_lines.len() - i,
    {
        let ghost kept_prev = kept.deep_view();
        let ghost na_prev = not_absolute.deep_view();
        let ghost nd_prev = not_directories.deep_view();
        let t = trim(file_lines[i].as_str());
        proof {
            assert(all[i as int] == file_lines@[i as int]@);
            assert(t@ == trim_spec(all[i as int]));
        }
        if !crate::lines::starts_with(t.as_str(), comment_prefix) {
            let path = FsPath::parse(t.as_str());
            if !path.absolute {
                not_absolute.push(t);
                proof {
                    assert(not_absolute.deep_view() =~= na_prev.push(trim_spec(all[i as int])));
                }
            } else if !is_directory[i] {
                not_directories.push(t);
                proof {
                    assert(not_directories.deep_view() =~= nd_prev.push(
                        trim_spec(all[i as int]),
                    ));
                }
            } else {
                kept.push(path);
                proof {
                    assert(kept.deep_view() =~= kept_prev.push(
                        spec_parse(trim_spec(all[i as int])),
                    ));
                }
            }
        }
        proof {
            assert(all.take(i + 1).drop_last() =~= all.take(i as int));
            assert(dirs.take(i + 1).take(i as int) =~= dirs.take(i as int));
            assert(all.take(i + 1).last() == all[i as int]);
            assert(dirs.take(i + 1)[i as int] == dirs[i as int]);
        }
        i = i + 1;
    }
    proof {
        assert(all.take(file_lines.len() as int) =~= all);
        assert(dirs.take(file_lines.len() as int) =~= dirs);
    }
    ExclusionLoad { kept, not_absolute, not_directories }
}

/// An exclusion line is kept if and only if it is not a comment, is an
/// absolute path, and names a directory that existed when probed; nothing
/// else reaches the exclusion set.
pub proof fn lemma_exclusion_lines_accounted(
    file_lines: Seq<Seq<char>>,
    dirs: Seq<bool>,
    prefix: Seq<char>,
    p: PathModel,
)
    requires
        file_lines.len() == dirs.len(),
    ensures
        spec_kept_exclusions(file_lines, dirs, prefix).contains(p) <==> exists|i: int|
            0 <= i < file_lines.len() && exclusion_kept(trim_spec(file_lines[i]), dirs[i], prefix)
                && spec_parse(trim_spec(file_lines[i])) == p,
    decreases file_lines.len(),
{
    if file_lines.len() == 0 {
    } else {
        let n = file_lines.len() as int;
        let shorter = file_lines.drop_last();
        let sdirs = dirs.take(n - 1);
        lemma_exclusion_lines_accounted(shorter, sdirs, prefix, p);
        let last = trim_spec(file_lines.last());
        let kept = spec_kept_exclusions(file_lines, dirs, prefix);
        let kept_rest = spec_kept_exclusions(shorter, sdirs, prefix);

        if kept.contains(p) {
            if exclusion_kept(last, dirs[n - 1], prefix) {
                let w = choose|w: int| 0 <= w < kept.len() && kept[w] == p;
                if w < kept_rest.len() {
                    assert(kept_rest.contains(p));
                } else {
                    assert(p == spec_parse(last));
                    assert(exclusion_kept(trim_spec(file_lines[n - 1]), dirs[n - 1], prefix)
                        && spec_parse(trim_spec(file_lines[n - 1])) == p);
                }
            }
            if kept_rest.contains(p) {
                let w = choose|w: int|
                    0 <= w < shorter.len() && exclusion_kept(trim_spec(shorter[w]), sdirs[w], prefix)
                        && spec_parse(trim_spec(shorter[w])) == p;
                assert(exclusion_kept(trim_spec(file_lines[w]), dirs[w], prefix)
                    && spec_parse(trim_spec(file_lines[w])) == p);
            }
        }
        if exists|i: int|
            0 <= i < file_lines.len() && exclusion_kept(trim_spec(file_lines[i]), dirs[i], prefix)
                && spec_parse(trim_spec(file_lines[i])) == p {
            let w = choose|w: int|
                0 <= w < file_lines.len() && exclusion_kept(
                    trim_spec(file_lines[w]),
                    dirs[w],
                    prefix,
                ) && spec_parse(trim_spec(file_lines[w])) == p;
            if w < n - 1 {
                assert(exclusion_kept(trim_spec(shorter[w]), sdirs[w], prefix)
                    && spec_parse(trim_spec(shorter[w])) == p);
                assert(kept_rest.contains(p));
                let v = choose|v: int| 0 <= v < kept_rest.len() && kept_rest[v] == p;
                if exclusion_kept(last, dirs[n - 1], prefix) {
                    assert(kept == kept_rest.push(spec_parse(last)));
                    assert(kept[v] == p);
                } else {
                    assert(kept[v] == p);
                }
            } else {
                assert(exclusion_kept(last, dirs[n - 1], prefix));
                assert(kept == kept_rest.push(spec_parse(last)));
                assert(kept[kept.len() - 1] == p);
            }
        }
    }
}

} // verus!
