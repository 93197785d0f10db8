//! Which display server the session runs and which input mechanisms it
//! offers: the global-shortcut plugin only works under X11, GNOME sessions
//! (X11 or Wayland) get a GNOME custom keybinding, and auto-paste uses enigo
//! on X11 and the RemoteDesktop portal (libei) on Wayland.

use vstd::prelude::*;
use crate::models::SessionInfo;
use crate::text::{chars_of, contains_exec, contains_seq, lowercase, to_lowercase};

verus! {

/// The session kind from `XDG_SESSION_TYPE`, falling back to which display
/// variables are set.
pub open spec fn kind_spec(session_type: Option<Seq<char>>, wayland_display: bool, display: bool) -> Seq<char> {
    if session_type == Some("x11"@) {
        "x11"@
    } else if session_type == Some("wayland"@) {
        "wayland"@
    } else if wayland_display {
        "wayland"@
    } else if display {
        "x11"@
    } else {
        "unknown"@
    }
}

/// Whether `XDG_CURRENT_DESKTOP`, lower-cased, mentions GNOME.
pub open spec fn is_gnome_spec(desktop: Option<Seq<char>>) -> bool {
    match desktop {
        Some(d) => contains_seq(lowercase(d), "gnome"@),
        None => false,
    }
}

/// The session as detected from its environment: `session_type` is
/// `XDG_SESSION_TYPE`, `wayland_display` / `display` say whether
/// `WAYLAND_DISPLAY` / `DISPLAY` are set, `desktop` is `XDG_CURRENT_DESKTOP`
/// (each `None` when unset or not Unicode).
pub fn detect_from(
    session_type: Option<&str>,
    wayland_display: bool,
    display: bool,
    desktop: Option<&str>,
) -> (r: SessionInfo)
    ensures
        r.kind@ == kind_spec(
            match session_type {
                Some(s) => Some(s@),
                None => None,
            },
            wayland_display,
            display,
        ),
        r.is_gnome == is_gnome_spec(
            match desktop {
                Some(d) => Some(d@),
                None => None,
            },
        ),
        r.can_global_shortcut == (r.kind@ == "x11"@),
        r.hotkey_backend@ == (if r.is_gnome {
            "gnome"@
        } else if r.kind@ == "x11"@ {
            "global-shortcut"@
        } else {
            "none"@
        }),
        r.can_auto_paste == (r.kind@ == "x11"@ || r.kind@ == "wayland"@),
        r.auto_paste_backend@ == (if r.kind@ == "x11"@ {
            "enigo"@
        } else if r.kind@ == "wayland"@ {
            "portal"@
        } else {
            "none"@
        }),
{
    let kind: &'static str = match session_type {
        Some(t) => {
            if crate::text::str_eq(t, "x11") {
                "x11"
            } else if crate::text::str_eq(t, "wayland") {
                "wayland"
            } else if wayland_display {
                "wayland"
            } else if display {
                "x11"
            } else {
                "unknown"
            }
        },
        None => {
            if wayland_display {
                "wayland"
            } else if display {
                "x11"
            } else {
                "unknown"
            }
        },
    };
    proof {
        reveal_strlit("x11");
        reveal_strlit("wayland");
        reveal_strlit("unknown");
    }
    let is_gnome = match desktop {
        Some(d) => {
            let low = to_lowercase(d);
            let lc = chars_of(low.as_str());
            let g = chars_of("gnome");
            contains_exec(lc.as_slice(), g.as_slice())
        },
        None => false,
    };
    let is_x11 = crate::text::str_eq(kind, "x11");
    let is_wayland = crate::text::str_eq(kind, "wayland");
    let hotkey_backend: &'static str = if is_gnome {
        "gnome"
    } else if is_x11 {
        "global-shortcut"
    } else {
        "none"
    };
    let (can_auto_paste, backend): (bool, &'static str) = if is_x11 {
        (true, "enigo")
    } else if is_wayland {
        (true, "portal")
    } else {
        (false, "none")
    };
    SessionInfo {
        kind: kind.to_owned(),
        is_gnome,
        can_global_shortcut: is_x11,
        hotkey_backend: hotkey_backend.to_owned(),
        can_auto_paste,
        auto_paste_backend: backend.to_owned(),
    }
}

} // verus!
