//! Unique names and locations for temporary files and directories, used by
//! the test helpers in the neighbouring modules.

use vstd::prelude::*;

use crate::paths::{plain_component, spec_parse};

verus! {

/// Relies on `uuid::Uuid::new_v4` and its `Display` form: a fresh random
/// identifier, printed in the hyphenated form of 36 characters, all of
/// them hexadecimal digits or hyphens.
#[verifier::external_body]
fn uuid_v4_string() -> (r: String)
    ensures
        r@.len() == 36,
        forall|i: int| 0 <= i < r@.len() ==> r@[i] != '/',
{
    uuid::Uuid::new_v4().to_string()
}

/// Relies on `tempfile::env::temp_dir`: the directory the system offers
/// for temporary files, as text.
#[verifier::external_body]
pub(crate) fn system_temp_dir() -> (r: String) {
    tempfile::env::temp_dir().to_string_lossy().into_owned()
}

/// The shape of a generated temporary name: the fixed prefix followed by a
/// 36-character identifier, with no separator anywhere.
pub open spec fn is_temp_name(name: Seq<char>) -> bool {
    name.len() == "save-me-files-test-"@.len() + 36 && "save-me-files-test-"@.is_prefix_of(name)
        && (forall|i: int| 0 <= i < name.len() ==> name[i] != '/')
}

/// A generated name can serve as a path component.
pub proof fn lemma_temp_name_is_plain(name: Seq<char>)
    requires
        is_temp_name(name),
    ensures
        plain_component(name),
{
    assert(name.len() >= 36);
}

/// A filename that no other run is expected to produce: a fixed prefix
/// followed by a fresh random identifier.
pub fn create_unique_filename() -> (r: String)
    ensures
        is_temp_name(r@),
{
    let id = uuid_v4_string();
    let r = String::from_str("save-me-files-test-").concat(id.as_str());
    proof {
        reveal_strlit("save-me-files-test-");
        let prefix = "save-me-files-test-"@;
        assert(prefix =~= r@.subrange(0, prefix.len() as int));
        assert forall|i: int| 0 <= i < r@.len() implies r@[i] != '/' by {
            if i < prefix.len() {
                assert(r@[i] == prefix[i]);
                assert(prefix[i] != '/');
            } else {
                assert(r@[i] == id@[i - prefix.len()]);
            }
        }
    }
    r
}

/// Whether `r` is `dir` and `name` joined by a separator.
pub open spec fn joined_under(r: Seq<char>, dir: Seq<char>, name: Seq<char>) -> bool {
    r == dir + seq!['/'] + name
}

/// The stored path of a freshly made temporary object: its final
/// component is a generated name.
pub open spec fn ends_in_temp_name(p: Seq<char>) -> bool {
    spec_parse(p).segments.len() > 0 && is_temp_name(spec_parse(p).segments.last())
}

/// A path at which nothing is expected to exist yet: a unique name under
/// the system's temporary directory.
pub fn tmp_path() -> (r: String)
    ensures
        exists|dir: Seq<char>, name: Seq<char>|
            #[trigger] joined_under(r@, dir, name) && is_temp_name(name),
{
    proof {
        reveal_strlit("/");
    }
    let dir = system_temp_dir();
    let ghost dir_text = dir@;
    let name = create_unique_filename();
    let r = dir.concat("/").concat(name.as_str());
    proof {
        assert("/"@ =~= seq!['/']);
        assert(r@ =~= dir_text + seq!['/'] + name@);
        assert(joined_under(r@, dir_text, name@));
    }
    r
}

} // verus!
