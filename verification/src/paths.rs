//! Path operations on paths held as strings.  The syntax of paths is that of
//! `std::path::Path` on the platform the library is built for; these three
//! operations are called on it rather than restated.

use std::path::Path;
use vstd::prelude::*;

verus! {

/// What `Path::join` returns for these two paths, as characters.
pub uninterp spec fn joined_path(base: Seq<char>, child: Seq<char>) -> Seq<char>;

/// What `Path::file_name` returns for this path, as characters.
pub uninterp spec fn path_file_name(p: Seq<char>) -> Option<Seq<char>>;

/// What `Path::parent` returns for this path, as characters.
pub uninterp spec fn path_parent(p: Seq<char>) -> Option<Seq<char>>;

/// Calls `Path::join`: `child` appended to `base` with a separator (or
/// `child` alone when it is absolute).  The rules of path syntax are not
/// restated; the result is named `joined_path` of the two inputs.
#[verifier::external_body]
pub(crate) fn join(base: &str, child: &str) -> (r: String)
    ensures
        r@ == joined_path(base@, child@),
{
    Path::new(base).join(child).to_string_lossy().into_owned()
}

/// Calls `Path::file_name`: the final component of `p`, or nothing when
/// `p` ends in `..`, is a root or is empty.  The rules are not restated; the
/// result is named `path_file_name` of the input.  A path built from a `str`
/// is valid UTF-8, so its final component always converts back to `str`.
#[verifier::external_body]
pub(crate) fn file_name(p: &str) -> (r: Option<String>)
    ensures
        r matches Some(s) ==> path_file_name(p@) == Some(s@),
        r is None ==> path_file_name(p@) is None,
{
    match Path::new(p).file_name() {
        Some(n) => Some(n.to_string_lossy().into_owned()),
        None => None,
    }
}

/// Calls `Path::parent`: `p` without its final component, or nothing when
/// `p` is a root or empty.  The rules are not restated; the result is named
/// `path_parent` of the input.
#[verifier::external_body]
pub(crate) fn parent(p: &str) -> (r: Option<String>)
    ensures
        r matches Some(s) ==> path_parent(p@) == Some(s@),
        r is None ==> path_parent(p@) is None,
{
    match Path::new(p).parent() {
        Some(q) => Some(q.to_string_lossy().into_owned()),
        None => None,
    }
}

} // verus!
