//! Encoding values as RON text, through the `ron` crate.

use vstd::prelude::*;

verus! {

/// The RON text that `ron::ser::to_string` makes of the string `s`, or `None`
/// when it reports an error.
pub uninterp spec fn ron_text(s: Seq<char>) -> Option<Seq<char>>;

/// Calls `ron::ser::to_string` on a string. Its result is a function of the
/// string's characters alone; the contract names it `ron_text` and states
/// nothing more of it (its escaping rules are not stated).
#[verifier::external_body]
fn ron_string(s: &str) -> (r: Option<String>)
    ensures
        match r {
            Some(t) => ron_text(s@) == Some(t@),
            None => ron_text(s@) == None::<Seq<char>>,
        },
{
    ron::ser::to_string(s).ok()
}

/// The RON encoding of a path, as it is cached to remember the profile last
/// used.
pub fn encode_path(path: &str) -> (r: Option<String>)
    ensures
        match r {
            Some(t) => ron_text(path@) == Some(t@),
            None => ron_text(path@) == None::<Seq<char>>,
        },
{
    ron_string(path)
}

} // verus!
