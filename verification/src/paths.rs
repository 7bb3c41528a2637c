//! The two path texts that headers show for a file: its final component and
//! its path relative to an optional workspace root.

use vstd::prelude::*;
use vstd::string::StringExecFns;

verus! {

/// The relative path from `base` to `path` as display text, when one can be
/// computed.
pub uninterp spec fn diff_path_of(path: Seq<char>, base: Seq<char>) -> Option<Seq<char>>;

/// Relies on `pathdiff::diff_paths`: a pure computation on the two paths,
/// `None` exactly when no relative path exists (a relative path against an
/// absolute base, or a base ending in a parent component that cannot be
/// matched). The result is shown lossily as text.
#[verifier::external_body]
fn diff_path(path: &String, base: &String) -> (r: Option<String>)
    ensures
        r is Some <==> diff_path_of(path@, base@) is Some,
        r is Some ==> r->0@ == diff_path_of(path@, base@)->0,
{
    pathdiff::diff_paths(path.as_str(), base.as_str()).map(|p| p.to_string_lossy().into_owned())
}

/// The final component of `path` as text, when the path has one.
pub uninterp spec fn basename_of(path: Seq<char>) -> Option<Seq<char>>;

/// Relies on `std::path::Path::file_name`: a pure computation that returns
/// the final component of the path, and `None` when the path ends in a root
/// or parent component. The component is kept only when it is valid text.
#[verifier::external_body]
fn file_name_of(path: &String) -> (r: Option<String>)
    ensures
        r is Some <==> basename_of(path@) is Some,
        r is Some ==> r->0@ == basename_of(path@)->0,
{
    std::path::Path::new(path.as_str()).file_name().and_then(|n| n.to_str()).map(
        |s| s.to_string(),
    )
}

/// The text a header shows as the file's basename: the final path component,
/// or `unknown` when there is none.
pub open spec fn header_basename(path: Seq<char>) -> Seq<char> {
    match basename_of(path) {
        Some(b) => b,
        None => "unknown"@,
    }
}

/// Returns the final component of `path`, or `unknown` when it has none.
pub fn basename_for(path: &String) -> (r: String)
    ensures
        r@ == header_basename(path@),
{
    match file_name_of(path) {
        Some(b) => b,
        None => String::from_str("unknown"),
    }
}

/// The text a header shows as the file's path: relative to the workspace
/// root when one is given and a relative path exists, else the path itself.
pub open spec fn display_path(path: Seq<char>, root: Option<Seq<char>>) -> Seq<char> {
    match root {
        None => path,
        Some(w) => match diff_path_of(path, w) {
            Some(d) => d,
            None => path,
        },
    }
}

/// Returns `path` relative to `root` when a root is given and a relative
/// path can be computed, and `path` unchanged otherwise.
pub fn relpath_for(path: &String, root: &Option<String>) -> (r: String)
    ensures
        r@ == display_path(path@, root.deep_view()),
{
    match root {
        None => path.clone(),
        Some(w) => match diff_path(path, w) {
            Some(d) => d,
            None => path.clone(),
        },
    }
}

} // verus!
