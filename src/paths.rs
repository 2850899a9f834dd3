//! The path operations this library relies on, on paths held as text.

use vstd::prelude::*;

verus! {

/// What `Path::parent` gives for a path.
pub uninterp spec fn path_parent(p: Seq<char>) -> Option<Seq<char>>;

/// What `PathBuf::push` makes of a base path and a further piece.
pub uninterp spec fn path_joined(base: Seq<char>, rel: Seq<char>) -> Seq<char>;

/// What `Path::file_name` gives for a path.
pub uninterp spec fn path_file_name(p: Seq<char>) -> Option<Seq<char>>;

/// Relies on `Path::parent`: the path without its last component, if it has
/// one; the result depends on the text alone.
#[verifier::external_body]
pub(crate) fn parent_path(p: &str) -> (r: Option<String>)
    ensures
        r.deep_view() == path_parent(p@),
{
    std::path::Path::new(p).parent().map(|q| q.to_string_lossy().into_owned())
}

/// Relies on `PathBuf::push`: `rel` appended to `base`; the result depends on
/// the text alone.
#[verifier::external_body]
pub(crate) fn join_path(base: &str, rel: &str) -> (r: String)
    ensures
        r@ == path_joined(base@, rel@),
{
    let mut b = std::path::PathBuf::from(base);
    b.push(rel);
    b.to_string_lossy().into_owned()
}

/// Relies on `Path::file_name`: the last component, if it is a name; the
/// result depends on the text alone.
#[verifier::external_body]
pub(crate) fn file_name(p: &str) -> (r: Option<String>)
    ensures
        r.deep_view() == path_file_name(p@),
{
    std::path::Path::new(p).file_name().map(|n| n.to_string_lossy().into_owned())
}

} // verus!
