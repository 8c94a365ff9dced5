//! The decisions of the command line interface.

use vstd::prelude::*;

verus! {

/// Whether detailed logs are printed: when asked for, unless logs are
/// silenced, which overrides it.
pub fn detailed_logs(silent: bool, verbose: bool) -> (r: bool)
    ensures
        r == (verbose && !silent),
{
    verbose && !silent
}

/// The most recently imported instance: the last entry of the history.
pub fn most_recent(history: &Vec<String>) -> (r: Option<&String>)
    ensures
        history@.len() == 0 ==> r is None,
        history@.len() > 0 ==> r == Some(&history@.last()),
{
    if history.len() == 0 {
        None
    } else {
        Some(&history[history.len() - 1])
    }
}

/// The entries of a history, newest first, as they are listed.
pub fn newest_first(history: &Vec<String>) -> (r: Vec<String>)
    ensures
        r@ == history@.reverse(),
{
    let mut r: Vec<String> = Vec::new();
    let mut i: usize = history.len();
    while i > 0
        invariant
            i <= history@.len(),
            r@ == history@.subrange(i as int, history@.len() as int).reverse(),
        decreases i,
    {
        i = i - 1;
        r.push(history[i].clone());
        proof {
            assert(r@ =~= history@.subrange(i as int, history@.len() as int).reverse());
        }
    }
    proof {
        assert(history@.subrange(0, history@.len() as int) =~= history@);
    }
    r
}

} // verus!
