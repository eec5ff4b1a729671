//! The few questions about paths that only std's `Path` or the disk can answer.

use vstd::prelude::*;

verus! {

/// `Path::exists`: whether something is at `path` at this moment. The answer depends on the
/// disk, so nothing is promised of it.
#[verifier::external_body]
pub(crate) fn path_exists(path: &str) -> bool {
    std::path::Path::new(path).exists()
}

/// What `Path::file_name` gives for a path: its last component, when that is a name.
pub uninterp spec fn file_name_of(path: Seq<char>) -> Option<Seq<char>>;

/// `Path::file_name`, read back as a `str` (the path came from one, so it always is).
#[verifier::external_body]
pub(crate) fn file_name(path: &str) -> (r: Option<&str>)
    ensures
        r matches Some(name) ==> file_name_of(path@) == Some(name@),
        r is None ==> file_name_of(path@) is None,
{
    match std::path::Path::new(path).file_name() {
        Some(name) => name.to_str(),
        None => None,
    }
}

/// What `Path::parent` gives for a path: the path without its last component, when it has
/// one.
pub uninterp spec fn parent_of(path: Seq<char>) -> Option<Seq<char>>;

/// `Path::parent`, read back as a `str`.
#[verifier::external_body]
pub(crate) fn parent(path: &str) -> (r: Option<&str>)
    ensures
        r matches Some(p) ==> parent_of(path@) == Some(p@),
        r is None ==> parent_of(path@) is None,
{
    match std::path::Path::new(path).parent() {
        Some(p) => p.to_str(),
        None => None,
    }
}

} // verus!

verus! {

/// `Path::join` of two paths given as text: an absolute `name` replaces `dir`; otherwise a
/// `/` is put between them unless `dir` is empty or already ends in one.
pub open spec fn join_spec(dir: Seq<char>, name: Seq<char>) -> Seq<char> {
    if name.len() > 0 && name[0] == '/' {
        name
    } else if dir.len() > 0 && dir.last() != '/' {
        dir + seq!['/'] + name
    } else {
        dir + name
    }
}

/// `dir` joined with `name`.
pub fn join(dir: &str, name: &str) -> (r: String)
    ensures
        r@ == join_spec(dir@, name@),
{
    let n = crate::chars::chars_of(name);
    if n.len() > 0 && n[0] == '/' {
        return name.to_owned();
    }
    let d = crate::chars::chars_of(dir);
    let mut r = dir.to_owned();
    if d.len() > 0 && d[d.len() - 1] != '/' {
        crate::chars::push_char(&mut r, '/');
    }
    crate::chars::push_str(&mut r, name);
    r
}

} // verus!
