//! The last component of a path, as `std::path::Path` finds it.

use vstd::prelude::*;

verus! {

/// The final component of the path `path`, as text, as
/// `std::path::Path::file_name` finds it; `None` when the path has none (it is
/// empty, a root, or ends in `..`).
pub uninterp spec fn path_file_name(path: Seq<char>) -> Option<Seq<char>>;

/// Calls `std::path::Path::file_name` on `path` and gives the component back as
/// a `String`. What the component is (which separators count, how `.` and
/// trailing separators are skipped) is left to `std`; the contract only names
/// the result, a function of the path's characters.
#[verifier::external_body]
pub(crate) fn file_name(path: &str) -> (r: Option<String>)
    ensures
        match r {
            Some(n) => path_file_name(path@) == Some(n@),
            None => path_file_name(path@) == None::<Seq<char>>,
        },
{
    std::path::Path::new(path).file_name().and_then(|n| n.to_str()).map(|n| n.to_owned())
}

} // verus!
