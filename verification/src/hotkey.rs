//! The launcher's keyboard shortcuts.

use vstd::prelude::*;

use crate::text::text_is;

verus! {

/// The actions bound to keyboard shortcuts.
#[derive(Debug, Clone, Copy, PartialEq, Eq, Structural)]
pub enum Hotkey {
    /// Ctrl+W.
    ClosedTab,
    /// Ctrl+T.
    NewTab,
    /// Ctrl+R.
    RefreshTab,
}

/// The shortcut that a key press is, if any: `key` is the character the key
/// types and `ctrl_only` whether Ctrl, and no other modifier, is held.
pub fn hotkey_for(ctrl_only: bool, key: &str) -> (r: Option<Hotkey>)
    ensures
        r == (if !ctrl_only {
            None
        } else if key@ == "w"@ {
            Some(Hotkey::ClosedTab)
        } else if key@ == "t"@ {
            Some(Hotkey::NewTab)
        } else if key@ == "r"@ {
            Some(Hotkey::RefreshTab)
        } else {
            None
        }),
{
    if ctrl_only {
        if text_is(key, "w") {
            return Some(Hotkey::ClosedTab);
        } else if text_is(key, "t") {
            return Some(Hotkey::NewTab);
        } else if text_is(key, "r") {
            return Some(Hotkey::RefreshTab);
        }
    }
    None
}

} // verus!
