//! A plain model of filesystem paths.
//!
//! A path is a flag saying whether it is absolute together with its non-empty
//! components, in order.  Keeping the components apart is what makes prefix
//! tests component-wise: `/data/foo` lies above `/data/foo/x` but not above
//! `/data/foobar`, even though it is a prefix of both as a string.

use vstd::prelude::*;

verus! {

/// The mathematical value of a path: its absoluteness and its components.
pub ghost struct PathModel {
    pub absolute: bool,
    pub segments: Seq<Seq<char>>,
}

/// A filesystem path held as plain values.
#[derive(Debug, PartialEq, Eq)]
pub struct FsPath {
    pub absolute: bool,
    pub segments: Vec<String>,
}

impl View for FsPath {
    type V = PathModel;

    open spec fn view(&self) -> PathModel {
        PathModel { absolute: self.absolute, segments: self.segments.deep_view() }
    }
}

impl DeepView for FsPath {
    type V = PathModel;

    open spec fn deep_view(&self) -> PathModel {
        self.view()
    }
}

/// Whether `p` is `prefix` itself or lies beneath it, component by component.
pub open spec fn path_starts_with(p: PathModel, prefix: PathModel) -> bool {
    p.absolute == prefix.absolute && prefix.segments.is_prefix_of(p.segments)
}

/// The components of a string path: the maximal runs of characters between
/// `/` separators, empty runs left out.
pub open spec fn split_slash(s: Seq<char>) -> Seq<Seq<char>>
    decreases s.len(),
{
    if s.len() == 0 {
        seq![]
    } else if s[0] == '/' {
        split_slash(s.skip(1))
    } else {
        let rest = split_slash(s.skip(1));
        if s.len() > 1 && s[1] != '/' {
            rest.update(0, seq![s[0]] + rest[0])
        } else {
            seq![seq![s[0]]] + rest
        }
    }
}

/// The components with `.` segments dropped: a `.` says nothing about
/// where a path points, and the platform's component-wise comparison
/// treats `/data/./foo` and `/data/foo` alike.
pub open spec fn drop_dots(segs: Seq<Seq<char>>) -> Seq<Seq<char>>
    decreases segs.len(),
{
    if segs.len() == 0 {
        seq![]
    } else if segs[0] == seq!['.'] {
        drop_dots(segs.drop_first())
    } else {
        seq![segs[0]] + drop_dots(segs.drop_first())
    }
}

/// The path a string denotes: absolute when it begins with `/`, with its
/// `/`-separated components, `.` segments dropped.
pub open spec fn spec_parse(s: Seq<char>) -> PathModel {
    PathModel { absolute: s.len() > 0 && s[0] == '/', segments: drop_dots(split_slash(s)) }
}

/// A string usable as one path component: non-empty, free of separators,
/// and not one of the relative markers.
pub open spec fn plain_component(name: Seq<char>) -> bool {
    name.len() > 0 && name != seq!['.'] && name != seq!['.', '.'] && (forall|i: int|
        0 <= i < name.len() ==> name[i] != '/')
}

proof fn lemma_split_slash_skips_slash(s: Seq<char>, i: int)
    requires
        0 <= i < s.len(),
        s[i] == '/',
    ensures
        split_slash(s.skip(i)) == split_slash(s.skip(i + 1)),
{
    assert(s.skip(i).len() > 0);
    assert(s.skip(i)[0] == '/');
    assert(s.skip(i).skip(1) =~= s.skip(i + 1));
}

proof fn lemma_split_slash_segment(s: Seq<char>, i: int, j: int)
    requires
        0 <= i < j <= s.len(),
        forall|m: int| i <= m < j ==> s[m] != '/',
        j == s.len() || s[j] == '/',
    ensures
        split_slash(s.skip(i)) == seq![s.subrange(i, j)] + split_slash(s.skip(j)),
    decreases j - i,
{
    let t = s.skip(i);
    assert(t.len() == s.len() - i);
    assert(t[0] == s[i]);
    assert(t[0] != '/');
    assert(t.skip(1) =~= s.skip(i + 1));
    if i + 1 == j {
        if t.len() > 1 {
            assert(t[1] == s[i + 1]);
        }
        assert(split_slash(t) == seq![seq![t[0]]] + split_slash(s.skip(j)));
        assert(seq![t[0]] =~= s.subrange(i, j));
    } else {
        assert(t.len() > 1);
        assert(t[1] == s[i + 1]);
        assert(t[1] != '/');
        lemma_split_slash_segment(s, i + 1, j);
        let rest = split_slash(s.skip(i + 1));
        assert(rest == seq![s.subrange(i + 1, j)] + split_slash(s.skip(j)));
        assert(rest[0] == s.subrange(i + 1, j));
        assert(split_slash(t) == rest.update(0, seq![t[0]] + rest[0]));
        assert(seq![t[0]] + s.subrange(i + 1, j) =~= s.subrange(i, j));
        assert(rest.update(0, s.subrange(i, j)) =~= seq![s.subrange(i, j)] + split_slash(
            s.skip(j),
        ));
    }
}

proof fn lemma_drop_dots_cons(x: Seq<char>, t: Seq<Seq<char>>)
    ensures
        drop_dots(seq![x] + t) == if x == seq!['.'] {
            drop_dots(t)
        } else {
            seq![x] + drop_dots(t)
        },
{
    assert((seq![x] + t)[0] == x);
    assert((seq![x] + t).drop_first() =~= t);
}

/// A plain component splits into itself alone, so parsing `dir/name` adds
/// exactly one component to `dir`'s.
pub proof fn lemma_plain_component_parses_whole(name: Seq<char>)
    requires
        plain_component(name),
    ensures
        drop_dots(split_slash(name)) == seq![name],
{
    lemma_split_slash_segment(name, 0, name.len() as int);
    assert(name.subrange(0, name.len() as int) =~= name);
    assert(name.skip(name.len() as int) =~= Seq::<char>::empty());
    assert(split_slash(name) == seq![name] + split_slash(Seq::<char>::empty()));
    assert(split_slash(name) =~= seq![name]);
    lemma_drop_dots_cons(name, seq![]);
    assert(seq![name] + Seq::<Seq<char>>::empty() =~= seq![name]);
}

fn dot_segment(seg: &str) -> (r: bool)
    ensures
        r == (seg@ == seq!['.']),
{
    let r = seg.unicode_len() == 1 && seg.get_char(0) == '.';
    proof {
        if r {
            assert(seg@ =~= seq!['.']);
        } else {
            if seg@.len() == 1 {
                assert(seg@[0] != seq!['.'][0]);
            }
        }
    }
    r
}

impl FsPath {
    fn parse_segments(s: &str, from: usize) -> (r: Vec<String>)
        requires
            from <= s@.len(),
        ensures
            r.deep_view() == drop_dots(split_slash(s@.skip(from as int))),
        decreases s@.len() - from,
    {
        let n = s.unicode_len();
        if from == n {
            let r: Vec<String> = Vec::new();
            proof {
                assert(s@.skip(from as int) =~= Seq::<char>::empty());
                assert(r.deep_view() =~= drop_dots(split_slash(s@.skip(from as int))));
            }
            return r;
        }
        if s.get_char(from) == '/' {
            let r = Self::parse_segments(s, from + 1);
            proof {
                lemma_split_slash_skips_slash(s@, from as int);
            }
            return r;
        }
        let mut j = from + 1;
        while j < n && s.get_char(j) != '/'
            invariant
                n == s@.len(),
                from < j <= n,
                forall|m: int| from <= m < j ==> s@[m] != '/',
            decreases n - j,
        {
            j = j + 1;
        }
        let piece = s.substring_char(from, j);
        proof {
            lemma_split_slash_segment(s@, from as int, j as int);
            lemma_drop_dots_cons(
                s@.subrange(from as int, j as int),
                split_slash(s@.skip(j as int)),
            );
        }
        if dot_segment(piece) {
            return Self::parse_segments(s, j);
        }
        let seg = piece.to_owned();
        let mut rest = Self::parse_segments(s, j);
        let ghost rest_view = rest.deep_view();
        let mut r: Vec<String> = Vec::new();
        r.push(seg);
        r.append(&mut rest);
        proof {
            assert(r.deep_view() =~= seq![s@.subrange(from as int, j as int)] + rest_view);
        }
        r
    }

    /// Reads a path from its textual form.
    pub fn parse(s: &str) -> (r: FsPath)
        ensures
            r@ == spec_parse(s@),
    {
        let n = s.unicode_len();
        let absolute = n > 0 && s.get_char(0) == '/';
        let segments = Self::parse_segments(s, 0);
        proof {
            assert(s@.skip(0) =~= s@);
        }
        FsPath { absolute, segments }
    }

    /// An identical copy of the path.
    pub fn duplicate(&self) -> (r: FsPath)
        ensures
            r@ == self@,
    {
        let mut segments: Vec<String> = Vec::new();
        let mut i: usize = 0;
        while i < self.segments.len()
            invariant
                0 <= i <= self.segments.len(),
                segments.deep_view() == self.segments.deep_view().take(i as int),
            decreases self.segments.len() - i,
        {
            let ghost prev = segments.deep_view();
            segments.push(self.segments[i].clone());
            proof {
                assert(segments.deep_view() =~= prev.push(self.segments.deep_view()[i as int]));
                assert(self.segments.deep_view().take(i + 1) =~= prev.push(
                    self.segments.deep_view()[i as int],
                ));
            }
            i = i + 1;
        }
        proof {
            assert(self.segments.deep_view().take(self.segments.len() as int) =~= self.segments.deep_view());
        }
        FsPath { absolute: self.absolute, segments }
    }

    /// Whether this path equals `prefix` or lies beneath it.  The test is by
    /// whole components, so a shared string prefix alone does not count.
    pub fn starts_with(&self, prefix: &FsPath) -> (r: bool)
        ensures
            r == path_starts_with(self@, prefix@),
    {
        if self.absolute != prefix.absolute {
            return false;
        }
        if prefix.segments.len() > self.segments.len() {
            return false;
        }
        let ghost pseg = prefix.segments.deep_view();
        let ghost sseg = self.segments.deep_view();
        let mut i: usize = 0;
        while i < prefix.segments.len()
            invariant
                0 <= i <= prefix.segments.len(),
                prefix.segments.len() <= self.segments.len(),
                pseg == prefix.segments.deep_view(),
                sseg == self.segments.deep_view(),
                forall|m: int| 0 <= m < i ==> pseg[m] == sseg[m],
            decreases prefix.segments.len() - i,
        {
            if !(self.segments[i] == prefix.segments[i]) {
                assert(pseg[i as int] != sseg.subrange(0, pseg.len() as int)[i as int]);
                return false;
            }
            i = i + 1;
        }
        assert(pseg =~= sseg.subrange(0, pseg.len() as int));
        true
    }

    /// The path's final component.
    pub fn file_name(&self) -> (r: &String)
        requires
            self@.segments.len() > 0,
        ensures
            r@ == self@.segments.last(),
    {
        &self.segments[self.segments.len() - 1]
    }

    /// The path relative to `root`, which must lie above it.
    pub fn strip_prefix(&self, root: &FsPath) -> (r: FsPath)
        requires
            path_starts_with(self@, root@),
        ensures
            r@.absolute == false,
            r@.segments == self@.segments.skip(root@.segments.len() as int),
    {
        let ghost k = root.segments.deep_view().len() as int;
        let mut segments: Vec<String> = Vec::new();
        let mut i: usize = root.segments.len();
        while i < self.segments.len()
            invariant
                k == root.segments.deep_view().len(),
                k <= i <= self.segments.len(),
                segments.deep_view() == self.segments.deep_view().subrange(k, i as int),
            decreases self.segments.len() - i,
        {
            let ghost prev = segments.deep_view();
            segments.push(self.segments[i].clone());
            proof {
                assert(segments.deep_view() =~= prev.push(self.segments.deep_view()[i as int]));
                assert(self.segments.deep_view().subrange(k, i + 1) =~= prev.push(
                    self.segments.deep_view()[i as int],
                ));
            }
            i = i + 1;
        }
        proof {
            assert(self.segments.deep_view().subrange(k, self.segments.len() as int)
                =~= self@.segments.skip(k));
        }
        FsPath { absolute: false, segments }
    }

    /// The path extended by a relative path, component after component.
    pub fn join(&self, rel: &FsPath) -> (r: FsPath)
        requires
            !rel@.absolute,
        ensures
            r@.absolute == self@.absolute,
            r@.segments == self@.segments + rel@.segments,
    {
        let mut joined = self.duplicate();
        let mut i: usize = 0;
        while i < rel.segments.len()
            invariant
                0 <= i <= rel.segments.len(),
                joined.absolute == self.absolute,
                joined.segments.deep_view() == self.segments.deep_view() + rel.segments.deep_view().take(i as int),
            decreases rel.segments.len() - i,
        {
            let ghost prev = joined.segments.deep_view();
            joined.segments.push(rel.segments[i].clone());
            proof {
                assert(joined.segments.deep_view() =~= prev.push(rel.segments.deep_view()[i as int]));
                assert(self.segments.deep_view() + rel.segments.deep_view().take(i + 1)
                    =~= prev.push(rel.segments.deep_view()[i as int]));
            }
            i = i + 1;
        }
        proof {
            assert(rel.segments.deep_view().take(rel.segments.len() as int) =~= rel.segments.deep_view());
        }
        joined
    }
}

/// The text of a component sequence, the components separated by `/`.
pub open spec fn join_segments(segs: Seq<Seq<char>>) -> Seq<char>
    decreases segs.len(),
{
    if segs.len() == 0 {
        seq![]
    } else if segs.len() == 1 {
        segs[0]
    } else {
        segs[0] + seq!['/'] + join_segments(segs.skip(1))
    }
}

/// The textual form of a path.
pub open spec fn unparse(p: PathModel) -> Seq<char> {
    (if p.absolute {
        seq!['/']
    } else {
        Seq::<char>::empty()
    }) + join_segments(p.segments)
}

proof fn lemma_join_segments_snoc(segs: Seq<Seq<char>>, x: Seq<char>)
    ensures
        join_segments(segs.push(x)) == if segs.len() == 0 {
            x
        } else {
            join_segments(segs) + seq!['/'] + x
        },
    decreases segs.len(),
{
    let p = segs.push(x);
    if segs.len() == 0 {
        assert(p.len() == 1);
        assert(p[0] == x);
    } else if segs.len() == 1 {
        assert(p.len() == 2);
        assert(p.skip(1) =~= seq![x]);
        assert(join_segments(seq![x]) == x);
        assert(join_segments(p) == segs[0] + seq!['/'] + x);
    } else {
        assert(p.len() > 1);
        assert(p.skip(1) =~= segs.skip(1).push(x));
        lemma_join_segments_snoc(segs.skip(1), x);
        assert(segs.skip(1).len() > 0);
        assert(join_segments(p) == p[0] + seq!['/'] + (join_segments(segs.skip(1)) + seq!['/']
            + x));
        assert(p[0] == segs[0]);
        assert(segs[0] + seq!['/'] + (join_segments(segs.skip(1)) + seq!['/'] + x) =~= (segs[0]
            + seq!['/'] + join_segments(segs.skip(1))) + seq!['/'] + x);
    }
}

impl FsPath {
    /// The textual form of the path, its components separated by `/`.
    pub fn to_path_string(&self) -> (r: String)
        ensures
            r@ == unparse(self@),
    {
        proof {
            reveal_strlit("/");
            reveal_strlit("");
        }
        let mut out = String::new();
        if self.absolute {
            out.append("/");
        }
        let ghost head: Seq<char> = if self.absolute {
            seq!['/']
        } else {
            Seq::<char>::empty()
        };
        proof {
            assert(out@ =~= head);
        }
        let mut i: usize = 0;
        while i < self.segments.len()
            invariant
                0 <= i <= self.segments.len(),
                head == if self.absolute {
                    seq!['/']
                } else {
                    Seq::<char>::empty()
                },
                out@ == head + join_segments(self.segments.deep_view().take(i as int)),
            decreases self.segments.len() - i,
        {
            proof {
                reveal_strlit("/");
            }
            let ghost segs = self.segments.deep_view();
            let ghost before = out@;
            if i > 0 {
                out.append("/");
            }
            out.append(self.segments[i].as_str());
            proof {
                lemma_join_segments_snoc(segs.take(i as int), segs[i as int]);
                assert(segs.take(i + 1) =~= segs.take(i as int).push(segs[i as int]));
                if i > 0 {
                    assert(segs.take(i as int).len() > 0);
                    assert(out@ =~= head + (join_segments(segs.take(i as int)) + seq!['/']
                        + segs[i as int]));
                } else {
                    assert(segs.take(0int).len() == 0);
                    assert(join_segments(segs.take(1int)) == segs[0]);
                    assert(out@ =~= head + segs[0]);
                }
            }
            i = i + 1;
        }
        proof {
            assert(self.segments.deep_view().take(self.segments.len() as int)
                =~= self.segments.deep_view());
        }
        out
    }
}

} // verus!
