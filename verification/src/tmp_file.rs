//! A temporary file with a known location, removed when dropped.  The file
//! itself is made and later removed by the `tempfile` crate; what is
//! tracked here is its path.

use vstd::prelude::*;

use crate::paths::{plain_component, spec_parse};
use crate::tmp::{create_unique_filename, is_temp_name, lemma_temp_name_is_plain, system_temp_dir};

verus! {

#[verifier::external_type_specification]
#[verifier::external_body]
pub struct ExTempPath(tempfile::TempPath);

/// Relies on `tempfile::Builder`: with `name` as the prefix and no random
/// part it creates, inside `dir`, a file named exactly `name`, removed
/// when the returned guard is dropped.  The built path is `dir` joined
/// with `name`; a relative `dir` is first resolved against the process's
/// current directory, so the joined form is promised only of an absolute
/// one.  The run is abandoned (panic) when the system cannot create the
/// file: the directory missing, the name already taken, or no permission.
#[verifier::external_body]
fn create_file_named(dir: &str, name: &str) -> (r: (tempfile::TempPath, String))
    requires
        plain_component(name@),
    ensures
        name@.is_suffix_of(r.1@),
        spec_parse(dir@).absolute ==> spec_parse(r.1@).absolute,
        spec_parse(dir@).absolute ==> spec_parse(r.1@).segments == spec_parse(
            dir@,
        ).segments.push(name@),
{
    let file = tempfile::Builder::new().prefix(name).rand_bytes(0).tempfile_in(dir).unwrap();
    let path = file.path().to_string_lossy().into_owned();
    (file.into_temp_path(), path)
}

/// A file that lives as long as this value: its path, and the guard that
/// removes it.
pub struct TmpFile {
    guard: tempfile::TempPath,
    path: String,
}

impl View for TmpFile {
    type V = Seq<char>;

    closed spec fn view(&self) -> Seq<char> {
        self.path@
    }
}

impl TmpFile {
    /// A fresh empty file under the system's temporary directory, with a
    /// unique generated name.
    pub fn new() -> (r: TmpFile)
        ensures
            exists|name: Seq<char>| #[trigger] is_temp_name(name) && name.is_suffix_of(r@),
    {
        let dir = system_temp_dir();
        let name = create_unique_filename();
        let ghost name_text = name@;
        proof {
            lemma_temp_name_is_plain(name_text);
        }
        let (guard, path) = create_file_named(dir.as_str(), name.as_str());
        proof {
            assert(is_temp_name(name_text) && name_text.is_suffix_of(path@));
        }
        TmpFile { guard, path }
    }

    /// A fresh empty file with a unique generated name directly inside
    /// `parent`, which must be an absolute path.
    pub fn new_with_parent(parent: &str) -> (r: TmpFile)
        requires
            spec_parse(parent@).absolute,
        ensures
            spec_parse(r@).absolute,
            spec_parse(r@).segments.len() == spec_parse(parent@).segments.len() + 1,
            spec_parse(r@).segments.drop_last() == spec_parse(parent@).segments,
            is_temp_name(spec_parse(r@).segments.last()),
    {
        let name = create_unique_filename();
        let ghost name_text = name@;
        proof {
            lemma_temp_name_is_plain(name_text);
        }
        let (guard, path) = create_file_named(parent, name.as_str());
        proof {
            assert(spec_parse(parent@).segments.push(name_text).drop_last() =~= spec_parse(
                parent@,
            ).segments);
        }
        TmpFile { guard, path }
    }

    /// A fresh empty file called `name` directly inside `parent`, which
    /// must be an absolute path; `name` must be usable as one component.
    pub fn new_with_parent_and_name(parent: &str, name: &str) -> (r: TmpFile)
        requires
            spec_parse(parent@).absolute,
            plain_component(name@),
        ensures
            spec_parse(r@).absolute,
            spec_parse(r@).segments == spec_parse(parent@).segments.push(name@),
    {
        let (guard, path) = create_file_named(parent, name);
        TmpFile { guard, path }
    }

    /// Where the file is.
    pub fn path(&self) -> (r: &str)
        ensures
            r@ == self@,
    {
        self.path.as_str()
    }
}

} // verus!
