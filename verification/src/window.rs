//! What the shortcut does to the main window.

use vstd::prelude::*;

verus! {

/// What is done to the main window.
#[derive(Clone, Copy, Debug, PartialEq, Eq)]
pub enum WindowAction {
    /// Hide it.
    Hide,
    /// Show it and give it the focus.
    ShowAndFocus,
}

/// What the toggle does: a window that is known to be visible is hidden; a
/// window that is hidden, or of which nothing is known, is shown and given
/// the focus.
pub fn toggle_action(visible: Option<bool>) -> (action: WindowAction)
    ensures
        action == (if visible == Some(true) {
            WindowAction::Hide
        } else {
            WindowAction::ShowAndFocus
        }),
{
    match visible {
        Some(true) => WindowAction::Hide,
        _ => WindowAction::ShowAndFocus,
    }
}

} // verus!
