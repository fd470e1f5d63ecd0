//! Selection, size accounting and copy planning.
//!
//! Selection works on a listing of the source tree: an entry per path seen,
//! each marked as a regular file or not.  A file is selected when its name
//! ends with one of the configured suffixes and its path does not lie
//! beneath any exclusion.  Planning turns each selected path into the
//! destination it must be copied to, together with the chain of directories
//! that must exist there first.

use vstd::prelude::*;

use crate::paths::{path_starts_with, FsPath, PathModel};

verus! {

/// One path met while walking the source tree.
#[derive(Debug)]
pub struct TreeEntry {
    pub path: FsPath,
    pub is_file: bool,
}

/// The mathematical value of a tree entry.
pub ghost struct EntryModel {
    pub path: PathModel,
    pub is_file: bool,
}

impl View for TreeEntry {
    type V = EntryModel;

    open spec fn view(&self) -> EntryModel {
        EntryModel { path: self.path@, is_file: self.is_file }
    }
}

impl DeepView for TreeEntry {
    type V = EntryModel;

    open spec fn deep_view(&self) -> EntryModel {
        self.view()
    }
}

/// Whether the filename ends with at least one of the suffixes.
pub open spec fn suffix_matches(name: Seq<char>, suffixes: Seq<Seq<char>>) -> bool {
    exists|k: int| 0 <= k < suffixes.len() && suffixes[k].is_suffix_of(name)
}

/// Whether the path is one of the exclusions or lies beneath one.
pub open spec fn is_excluded(p: PathModel, exclusions: Seq<PathModel>) -> bool {
    exists|k: int| 0 <= k < exclusions.len() && path_starts_with(p, exclusions[k])
}

/// Whether an entry belongs to the selection: a regular file, named by a
/// suffix, not beneath any exclusion.
pub open spec fn spec_selected(
    e: EntryModel,
    suffixes: Seq<Seq<char>>,
    exclusions: Seq<PathModel>,
) -> bool {
    e.is_file && e.path.segments.len() > 0 && suffix_matches(e.path.segments.last(), suffixes)
        && !is_excluded(e.path, exclusions)
}

/// The selected paths of a tree listing, in the listing's order.
pub open spec fn spec_find_files(
    entries: Seq<EntryModel>,
    suffixes: Seq<Seq<char>>,
    exclusions: Seq<PathModel>,
) -> Seq<PathModel>
    decreases entries.len(),
{
    if entries.len() == 0 {
        seq![]
    } else {
        let rest = spec_find_files(entries.drop_last(), suffixes, exclusions);
        if spec_selected(entries.last(), suffixes, exclusions) {
            rest.push(entries.last().path)
        } else {
            rest
        }
    }
}

/// Whether a file with this path is to be copied: the path has a final
/// component and it ends with one of the suffixes.
pub fn should_copy_file(path: &FsPath, suffixes: &Vec<String>) -> (r: bool)
    ensures
        r == (path@.segments.len() > 0 && suffix_matches(
            path@.segments.last(),
            suffixes.deep_view(),
        )),
{
    if path.segments.len() == 0 {
        return false;
    }
    let name = path.file_name();
    let mut k: usize = 0;
    while k < suffixes.len()
        invariant
            0 <= k <= suffixes.len(),
            path@.segments.len() > 0,
            name@ == path@.segments.last(),
            forall|m: int| 0 <= m < k ==> !suffixes.deep_view()[m].is_suffix_of(name@),
        decreases suffixes.len() - k,
    {
        if crate::lines::ends_with(name.as_str(), suffixes[k].as_str()) {
            proof {
                assert(suffixes.deep_view()[k as int].is_suffix_of(path@.segments.last()));
            }
            return true;
        }
        proof {
            assert(suffixes.deep_view()[k as int] == suffixes@[k as int]@);
        }
        k = k + 1;
    }
    false
}

/// Whether the path is one of the exclusions or lies beneath one.
pub fn excluded(path: &FsPath, exclusions: &Vec<FsPath>) -> (r: bool)
    ensures
        r == is_excluded(path@, exclusions.deep_view()),
{
    let mut k: usize = 0;
    while k < exclusions.len()
        invariant
            0 <= k <= exclusions.len(),
            forall|m: int| 0 <= m < k ==> !path_starts_with(path@, exclusions.deep_view()[m]),
        decreases exclusions.len() - k,
    {
        if path.starts_with(&exclusions[k]) {
            proof {
                assert(path_starts_with(path@, exclusions.deep_view()[k as int]));
            }
            return true;
        }
        proof {
            assert(exclusions.deep_view()[k as int] == exclusions@[k as int]@);
        }
        k = k + 1;
    }
    false
}

/// Whether a walk may step into this entry: files always, directories only
/// when they are not excluded, so that an excluded subtree is pruned whole.
pub fn should_keep_entry(path: &FsPath, is_directory: bool, exclusions: &Vec<FsPath>) -> (r:
    bool)
    ensures
        r == (!is_directory || !is_excluded(path@, exclusions.deep_view())),
{
    !is_directory || !excluded(path, exclusions)
}

/// The paths to copy out of a listing of the source tree: the regular
/// files whose name ends with one of `suffixes` and whose path does not lie
/// beneath any of `exclusions`.
pub fn find_files_to_copy(
    entries: &Vec<TreeEntry>,
    suffixes: &Vec<String>,
    exclusions: &Vec<FsPath>,
) -> (r: Vec<FsPath>)
    ensures
        r.deep_view() == spec_find_files(
            entries.deep_view(),
            suffixes.deep_view(),
            exclusions.deep_view(),
        ),
{
    let ghost all = entries.deep_view();
    let mut r: Vec<FsPath> = Vec::new();
    let mut i: usize = 0;
    while i < entries.len()
        invariant
            0 <= i <= entries.len(),
            all == entries.deep_view(),
            r.deep_view() == spec_find_files(
                all.take(i as int),
                suffixes.deep_view(),
                exclusions.deep_view(),
            ),
        decreases entries.len() - i,
    {
        let ghost prev = r.deep_view();
        let e = &entries[i];
        proof {
            assert(all[i as int] == entries@[i as int]@);
        }
        if e.is_file && should_copy_file(&e.path, suffixes) && !excluded(&e.path, exclusions) {
            r.push(e.path.duplicate());
            proof {
                assert(spec_selected(all[i as int], suffixes.deep_view(), exclusions.deep_view()));
                assert(r.deep_view() =~= prev.push(all[i as int].path));
            }
        } else {
            proof {
                assert(!spec_selected(
                    all[i as int],
                    suffixes.deep_view(),
                    exclusions.deep_view(),
                ));
            }
        }
        proof {
            assert(all.take(i + 1).drop_last() =~= all.take(i as int));
            assert(all.take(i + 1).last() == all[i as int]);
        }
        i = i + 1;
    }
    proof {
        assert(all.take(entries.len() as int) =~= all);
    }
    r
}

/// What the selection holds: exactly the paths of the selected entries.
pub proof fn lemma_find_files_contains(
    entries: Seq<EntryModel>,
    suffixes: Seq<Seq<char>>,
    exclusions: Seq<PathModel>,
    p: PathModel,
)
    ensures
        spec_find_files(entries, suffixes, exclusions).contains(p) <==> exists|i: int|
            0 <= i < entries.len() && entries[i].path == p && spec_selected(
                entries[i],
                suffixes,
                exclusions,
            ),
    decreases entries.len(),
{
    if entries.len() == 0 {
    } else {
        let n = entries.len() as int;
        let shorter = entries.drop_last();
        lemma_find_files_contains(shorter, suffixes, exclusions, p);
        let found = spec_find_files(entries, suffixes, exclusions);
        let found_rest = spec_find_files(shorter, suffixes, exclusions);

        if found.contains(p) {
            let w = choose|w: int| 0 <= w < found.len() && found[w] == p;
            if spec_selected(entries.last(), suffixes, exclusions) && w == found.len() - 1 {
                assert(entries[n - 1].path == p && spec_selected(
                    entries[n - 1],
                    suffixes,
                    exclusions,
                ));
            } else {
                assert(found_rest.contains(p));
                let v = choose|v: int|
                    0 <= v < shorter.len() && shorter[v].path == p && spec_selected(
                        shorter[v],
                        suffixes,
                        exclusions,
                    );
                assert(entries[v].path == p && spec_selected(entries[v], suffixes, exclusions));
            }
        }
        if exists|i: int|
            0 <= i < entries.len() && entries[i].path == p && spec_selected(
                entries[i],
                suffixes,
                exclusions,
            ) {
            let w = choose|w: int|
                0 <= w < entries.len() && entries[w].path == p && spec_selected(
                    entries[w],
                    suffixes,
                    exclusions,
                );
            if w < n - 1 {
                assert(shorter[w].path == p && spec_selected(shorter[w], suffixes, exclusions));
                assert(found_rest.contains(p));
                let v = choose|v: int| 0 <= v < found_rest.len() && found_rest[v] == p;
                assert(found[v] == p);
            } else {
                assert(found[found.len() - 1] == p);
            }
        }
    }
}

/// A file beneath an excluded directory is never selected, whatever the
/// suffixes say of its name.
pub proof fn lemma_excluded_subtree_not_selected(
    e: EntryModel,
    suffixes: Seq<Seq<char>>,
    exclusions: Seq<PathModel>,
    x: PathModel,
)
    requires
        exclusions.contains(x),
        path_starts_with(e.path, x),
    ensures
        !spec_selected(e, suffixes, exclusions),
{
    let k = choose|k: int| 0 <= k < exclusions.len() && exclusions[k] == x;
    assert(path_starts_with(e.path, exclusions[k]));
}

/// Nothing beneath an excluded directory reaches the selection.
pub proof fn lemma_selection_avoids_exclusions(
    entries: Seq<EntryModel>,
    suffixes: Seq<Seq<char>>,
    exclusions: Seq<PathModel>,
    x: PathModel,
    p: PathModel,
)
    requires
        exclusions.contains(x),
        spec_find_files(entries, suffixes, exclusions).contains(p),
    ensures
        !path_starts_with(p, x),
{
    lemma_find_files_contains(entries, suffixes, exclusions, p);
    let w = choose|w: int|
        0 <= w < entries.len() && entries[w].path == p && spec_selected(
            entries[w],
            suffixes,
            exclusions,
        );
    if path_starts_with(p, x) {
        lemma_excluded_subtree_not_selected(entries[w], suffixes, exclusions, x);
    }
}

/// An exclusion that shares only part of a component with a path does not
/// exclude it: excluding `/data/foo` leaves a file under `/data/foobar`
/// selected, although the one path is a prefix of the other as a string.
pub proof fn lemma_component_mismatch_keeps_file(
    e: EntryModel,
    suffixes: Seq<Seq<char>>,
    x: PathModel,
)
    requires
        !path_starts_with(e.path, x),
        e.is_file,
        e.path.segments.len() > 0,
        suffix_matches(e.path.segments.last(), suffixes),
    ensures
        spec_selected(e, suffixes, seq![x]),
{
    assert forall|k: int| 0 <= k < 1 implies !path_starts_with(e.path, seq![x][k]) by {
        assert(seq![x][k] == x);
    }
}

/// The total of the readable sizes, an unreadable file counting as zero.
pub open spec fn sum_sizes(sizes: Seq<Option<u64>>) -> int
    decreases sizes.len(),
{
    if sizes.len() == 0 {
        0int
    } else {
        sum_sizes(sizes.drop_last()) + (match sizes.last() {
            Some(n) => n as int,
            None => 0int,
        })
    }
}

proof fn lemma_sum_sizes_nonneg(sizes: Seq<Option<u64>>)
    ensures
        sum_sizes(sizes) >= 0,
    decreases sizes.len(),
{
    if sizes.len() > 0 {
        lemma_sum_sizes_nonneg(sizes.drop_last());
    }
}

/// The sum of the sizes that could be read, `size_hints[i]` being `None`
/// where a file's metadata could not be read and its contribution is zero.
/// A sum beyond `u64::MAX` saturates there.
pub fn calculate_files_size(size_hints: &Vec<Option<u64>>) -> (r: u64)
    ensures
        sum_sizes(size_hints@) <= u64::MAX ==> r == sum_sizes(size_hints@),
        sum_sizes(size_hints@) > u64::MAX ==> r == u64::MAX,
{
    let ghost all = size_hints@;
    let mut total: u64 = 0;
    let mut i: usize = 0;
    while i < size_hints.len()
        invariant
            0 <= i <= size_hints.len(),
            all == size_hints@,
            sum_sizes(all.take(i as int)) <= u64::MAX ==> total == sum_sizes(all.take(i as int)),
            sum_sizes(all.take(i as int)) > u64::MAX ==> total == u64::MAX,
        decreases size_hints.len() - i,
    {
        proof {
            assert(all.take(i + 1).drop_last() =~= all.take(i as int));
            assert(all.take(i + 1).last() == all[i as int]);
            lemma_sum_sizes_nonneg(all.take(i as int));
        }
        match size_hints[i] {
            Some(n) => {
                if total > u64::MAX - n {
                    total = u64::MAX;
                } else {
                    total = total + n;
                }
            },
            None => {},
        }
        i = i + 1;
    }
    proof {
        assert(all.take(size_hints.len() as int) =~= all);
    }
    total
}

/// Losing one file between selection and sizing removes exactly that
/// file's contribution from the total and nothing else.
pub proof fn lemma_missing_file_contributes_zero(sizes: Seq<Option<u64>>, i: int)
    requires
        0 <= i < sizes.len(),
    ensures
        sum_sizes(sizes.update(i, None)) == sum_sizes(sizes) - (match sizes[i] {
            Some(n) => n as int,
            None => 0int,
        }),
    decreases sizes.len(),
{
    let updated = sizes.update(i, None);
    if i == sizes.len() - 1 {
        assert(updated.drop_last() =~= sizes.drop_last());
        assert(updated.last() is None);
    } else {
        assert(updated.drop_last() =~= sizes.drop_last().update(i, None));
        assert(updated.last() == sizes.last());
        lemma_missing_file_contributes_zero(sizes.drop_last(), i);
    }
}

/// One file to copy: where it is and where it goes.
#[derive(Debug)]
pub struct CopyPlanEntry {
    pub source: FsPath,
    pub destination: FsPath,
}

/// The mathematical value of a plan entry.
pub ghost struct CopyPlanModel {
    pub source: PathModel,
    pub destination: PathModel,
}

impl View for CopyPlanEntry {
    type V = CopyPlanModel;

    open spec fn view(&self) -> CopyPlanModel {
        CopyPlanModel { source: self.source@, destination: self.destination@ }
    }
}

impl DeepView for CopyPlanEntry {
    type V = CopyPlanModel;

    open spec fn deep_view(&self) -> CopyPlanModel {
        self.view()
    }
}

/// Where a source file goes: the destination root extended by the file's
/// path relative to the source root.
pub open spec fn spec_destination(
    src_root: PathModel,
    dst_root: PathModel,
    p: PathModel,
) -> PathModel {
    PathModel {
        absolute: dst_root.absolute,
        segments: dst_root.segments + p.segments.skip(src_root.segments.len() as int),
    }
}

/// The destination of one source file.
pub fn copy_destination(src_directory: &FsPath, dst_directory: &FsPath, path: &FsPath) -> (r:
    FsPath)
    requires
        path_starts_with(path@, src_directory@),
    ensures
        r@ == spec_destination(src_directory@, dst_directory@, path@),
{
    let rel = path.strip_prefix(src_directory);
    dst_directory.join(&rel)
}

/// The copy plan: each path paired with its destination under
/// `dst_directory`, the relative directory structure kept as it is.
pub fn plan_copies(
    src_directory: &FsPath,
    dst_directory: &FsPath,
    paths: &Vec<FsPath>,
) -> (r: Vec<CopyPlanEntry>)
    requires
        forall|i: int| #![trigger paths.deep_view()[i]]
            0 <= i < paths.deep_view().len() ==> path_starts_with(
                paths.deep_view()[i],
                src_directory@,
            ),
    ensures
        r.deep_view().len() == paths.deep_view().len(),
        forall|i: int| #![trigger r.deep_view()[i]]
            0 <= i < r.deep_view().len() ==> r.deep_view()[i].source == paths.deep_view()[i]
                && r.deep_view()[i].destination == spec_destination(
                src_directory@,
                dst_directory@,
                paths.deep_view()[i],
            ),
{
    let mut r: Vec<CopyPlanEntry> = Vec::new();
    let mut i: usize = 0;
    while i < paths.len()
        invariant
            0 <= i <= paths.len(),
            forall|m: int| #![trigger paths.deep_view()[m]]
                0 <= m < paths.deep_view().len() ==> path_starts_with(
                    paths.deep_view()[m],
                    src_directory@,
                ),
            r.deep_view().len() == i,
            forall|m: int| #![trigger r.deep_view()[m]]
                0 <= m < i ==> r.deep_view()[m].source == paths.deep_view()[m]
                    && r.deep_view()[m].destination == spec_destination(
                    src_directory@,
                    dst_directory@,
                    paths.deep_view()[m],
                ),
        decreases paths.len() - i,
    {
        let ghost prev = r.deep_view();
        let source = &paths[i];
        proof {
            assert(paths.deep_view()[i as int] == paths@[i as int]@);
        }
        let destination = copy_destination(src_directory, dst_directory, source);
        r.push(CopyPlanEntry { source: source.duplicate(), destination });
        proof {
            assert(r.deep_view() =~= prev.push(
                CopyPlanModel {
                    source: paths.deep_view()[i as int],
                    destination: spec_destination(
                        src_directory@,
                        dst_directory@,
                        paths.deep_view()[i as int],
                    ),
                },
            ));
        }
        i = i + 1;
    }
    r
}

/// The directories that must exist before `destination` can be written:
/// each ancestor of its parent that lies below `dst_directory`, the
/// shallowest first.
pub fn directories_to_create(dst_directory: &FsPath, destination: &FsPath) -> (r: Vec<FsPath>)
    requires
        path_starts_with(destination@, dst_directory@),
        destination@.segments.len() > dst_directory@.segments.len(),
    ensures
        r.deep_view().len() == destination@.segments.len() - 1 - dst_directory@.segments.len(),
        forall|k: int| #![trigger r.deep_view()[k]]
            0 <= k < r.deep_view().len() ==> r.deep_view()[k].absolute == dst_directory@.absolute
                && r.deep_view()[k].segments == destination@.segments.take(
                dst_directory@.segments.len() + k + 1,
            ),
{
    let root_len = dst_directory.segments.len();
    let mut cur = dst_directory.duplicate();
    proof {
        assert(cur@.segments =~= destination@.segments.take(root_len as int));
    }
    let mut r: Vec<FsPath> = Vec::new();
    let mut i: usize = root_len;
    while i < destination.segments.len() - 1
        invariant
            root_len == dst_directory@.segments.len(),
            root_len <= i <= destination@.segments.len() - 1,
            destination@.segments.len() > root_len,
            cur.absolute == dst_directory@.absolute,
            cur@.segments == destination@.segments.take(i as int),
            r.deep_view().len() == i - root_len,
            forall|k: int| #![trigger r.deep_view()[k]]
                0 <= k < r.deep_view().len() ==> r.deep_view()[k].absolute
                    == dst_directory@.absolute && r.deep_view()[k].segments
                    == destination@.segments.take(root_len + k + 1),
        decreases destination@.segments.len() - i,
    {
        let ghost prev_segments = cur@.segments;
        let ghost prev_dirs = r.deep_view();
        cur.segments.push(destination.segments[i].clone());
        proof {
            assert(cur@.segments =~= prev_segments.push(destination@.segments[i as int]));
            assert(destination@.segments.take(i + 1) =~= prev_segments.push(
                destination@.segments[i as int],
            ));
        }
        let next = cur.duplicate();
        r.push(next);
        proof {
            assert(r.deep_view() =~= prev_dirs.push(cur@));
        }
        i = i + 1;
    }
    r
}

/// Planning preserves structure: every destination lies beneath the
/// destination root, and its path relative to that root is the source's
/// path relative to the source root.
pub proof fn lemma_plan_preserves_structure(
    src_root: PathModel,
    dst_root: PathModel,
    p: PathModel,
)
    requires
        path_starts_with(p, src_root),
    ensures
        path_starts_with(spec_destination(src_root, dst_root, p), dst_root),
        spec_destination(src_root, dst_root, p).segments.skip(dst_root.segments.len() as int)
            == p.segments.skip(src_root.segments.len() as int),
{
    let d = spec_destination(src_root, dst_root, p);
    assert(dst_root.segments =~= d.segments.subrange(0, dst_root.segments.len() as int));
    assert(d.segments.skip(dst_root.segments.len() as int) =~= p.segments.skip(
        src_root.segments.len() as int,
    ));
}

} // verus!
