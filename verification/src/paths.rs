//! Joining and splitting paths.
use vstd::prelude::*;

verus! {

/// What `Path::join` gives for a base path and a name, as text: the name
/// appended to the base with a separator, or the name alone where it is an
/// absolute path, by the path rules of the target the program is built for.
pub uninterp spec fn joined_path(base: Seq<char>, name: Seq<char>) -> Seq<char>;

/// What `Path::parent` gives for a path, as text: the path without its last
/// component, or nothing for a root or an empty path.
pub uninterp spec fn parent_path(path: Seq<char>) -> Option<Seq<char>>;

/// Calls `Path::join` on two paths given as text; the joined path is valid
/// UTF-8 because both parts are, so its text is exact.
#[verifier::external_body]
pub(crate) fn path_join(base: &str, name: &str) -> (r: String)
    ensures
        r@ == joined_path(base@, name@),
{
    std::path::Path::new(base).join(name).to_string_lossy().into_owned()
}

/// Calls `Path::parent` on a path given as text.
#[verifier::external_body]
pub(crate) fn path_parent(path: &str) -> (r: Option<String>)
    ensures
        match r {
            Some(p) => parent_path(path@) == Some(p@),
            None => parent_path(path@) is None,
        },
{
    match std::path::Path::new(path).parent() {
        Some(p) => Some(p.to_string_lossy().into_owned()),
        None => None,
    }
}

} // verus!
