//! What the tray icon and its menu do.
use vstd::prelude::*;
use crate::text::str_eq;

verus! {

/// What to do with the installer's main window.
#[derive(Clone, Copy, Debug, PartialEq, Eq, Structural)]
pub enum TrayAction {
    /// Show the window and give it the focus.
    ShowWindow,
    /// Hide the window.
    HideWindow,
    /// Leave the application.
    Quit,
    /// Nothing.
    Nothing,
}

/// The action of the tray menu entry `id`.
pub fn tray_menu_action(id: &str) -> (r: TrayAction)
    ensures
        r == if id@ == "show"@ {
            TrayAction::ShowWindow
        } else if id@ == "quit"@ {
            TrayAction::Quit
        } else {
            TrayAction::Nothing
        },
{
    if str_eq(id, "show") {
        TrayAction::ShowWindow
    } else if str_eq(id, "quit") {
        TrayAction::Quit
    } else {
        TrayAction::Nothing
    }
}

/// The action of a click on the tray icon: releasing the left button
/// toggles the window.
pub fn tray_click_action(left_button: bool, released: bool, window_visible: bool) -> (r: TrayAction)
    ensures
        r == if left_button && released {
            if window_visible {
                TrayAction::HideWindow
            } else {
                TrayAction::ShowWindow
            }
        } else {
            TrayAction::Nothing
        },
{
    if left_button && released {
        if window_visible {
            TrayAction::HideWindow
        } else {
            TrayAction::ShowWindow
        }
    } else {
        TrayAction::Nothing
    }
}

} // verus!
