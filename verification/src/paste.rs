//! Which mechanism sends the synthetic Ctrl+V (auto-paste): enigo on X11,
//! the RemoteDesktop portal and libei on Wayland (see `portal`). Sending the
//! keystroke is left to the caller; where no backend exists nothing is sent
//! and the clip stays copy-only.

use vstd::prelude::*;
use crate::text::str_eq;

verus! {

/// The mechanism for a session's paste backend.
#[derive(Clone, Copy, PartialEq, Eq, Debug, Structural)]
pub enum PasteRoute {
    /// Synthesize Ctrl+V with enigo (X11).
    Enigo,
    /// Send Ctrl+V through the portal session (Wayland).
    Portal,
    /// No backend: nothing is sent.
    Nothing,
}

/// `"enigo"` and `"portal"` pick their mechanism; anything else sends
/// nothing.
pub fn paste_route(backend: &str) -> (r: PasteRoute)
    ensures
        r == (if backend@ == "enigo"@ {
            PasteRoute::Enigo
        } else if backend@ == "portal"@ {
            PasteRoute::Portal
        } else {
            PasteRoute::Nothing
        }),
{
    if str_eq(backend, "enigo") {
        PasteRoute::Enigo
    } else if str_eq(backend, "portal") {
        PasteRoute::Portal
    } else {
        PasteRoute::Nothing
    }
}

} // verus!
