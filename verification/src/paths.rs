//! File paths, as far as an import needs them: the directory of the asset
//! file, and the place of a texture file named relative to it.
//!
//! Both are computed by the standard library under the path rules of the
//! platform the program was built for. The contracts give each result a
//! name and claim nothing else of it.

use vstd::prelude::*;

verus! {

/// The directory that holds `path`, where `path` has one.
pub uninterp spec fn parent_of(path: Seq<char>) -> Option<Seq<char>>;

/// The path of `file` as seen from the directory `dir`.
pub uninterp spec fn joined(dir: Seq<char>, file: Seq<char>) -> Seq<char>;

/// The text of an optional string.
pub open spec fn text_of(s: Option<String>) -> Option<Seq<char>> {
    match s {
        Some(s) => Some(s@),
        None => None,
    }
}

/// Calls `std::path::Path::parent` on `path`. Trusted: the result is what
/// that method returns, converted back to a string, and depends on `path`
/// alone.
#[verifier::external_body]
pub(crate) fn parent_dir(path: &str) -> (dir: Option<String>)
    ensures
        text_of(dir) == parent_of(path@),
{
    match std::path::Path::new(path).parent() {
        Some(p) => Some(p.to_string_lossy().into_owned()),
        None => None,
    }
}

/// Calls `std::path::Path::join` on `dir` with `file`. Trusted: the result
/// is what that method returns, converted back to a string, and depends on
/// the two arguments alone.
#[verifier::external_body]
pub(crate) fn join_path(dir: &str, file: &str) -> (path: String)
    ensures
        path@ == joined(dir@, file@),
{
    std::path::Path::new(dir).join(file).to_string_lossy().into_owned()
}

} // verus!
