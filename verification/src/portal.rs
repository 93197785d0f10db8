//! Wayland auto-paste through the XDG RemoteDesktop portal and libei: the
//! decisions around the session. It sends a synthetic Ctrl+V *through the
//! compositor* (keyboard only: pointer control is never requested). The
//! portal asks for consent once; the issued restore token is cached so
//! later pastes are silent until the user revokes it.
//!
//! This module holds what the session decides: which evdev keycode gives a
//! keysym in the server's keymap, the key events of a chord, how the libei
//! events move the keyboard state, where the token is cached and when a
//! cached token is taken, and how a failed consent flow is retried. Talking
//! to D-Bus and to the EIS socket is left to the caller.

use vstd::prelude::*;

verus! {

/// Reverse-domain identifier shown to the portal and sent to the compositor
/// as the provenance of the synthetic input.
pub const APP_ID: &'static str = "com.datluong.linuxclipboard";

/// Time budget (seconds) for the whole portal negotiation, including the
/// one-time consent dialog on first run.
pub const CONNECT_TIMEOUT_SECS: u64 = 60;

/// Time budget (seconds) for a keyboard device to resume after the portal
/// accepted.
pub const READY_TIMEOUT_SECS: u64 = 15;

/// The schema version of the cached token file.
pub const TOKEN_SCHEMA_VERSION: u32 = 1;

// --- keysyms and keycodes ------------------------------------------------
//
// Keysym values (as xkbcommon names them) are looked up by the caller.

/// The keysyms one key produces at shift levels 0 and 1 (first layout).
pub struct KeySyms {
    pub level0: Vec<u32>,
    pub level1: Vec<u32>,
}

/// The server keymap as the paste needs it: the keys from `min_keycode` on,
/// in keycode order (`keys[i]` is the xkb keycode `min_keycode + i`).
pub struct KeymapTable {
    pub min_keycode: u32,
    pub keys: Vec<KeySyms>,
}

/// The keycodes of the table fit a `u32`.
pub open spec fn table_fits(t: KeymapTable) -> bool {
    t.min_keycode + t.keys@.len() <= u32::MAX + 1
}

/// The keysyms of key `i` at `level` (0 or 1).
pub open spec fn level_syms(t: KeymapTable, i: int, level: int) -> Seq<u32> {
    if level == 0 {
        t.keys@[i].level0@
    } else {
        t.keys@[i].level1@
    }
}

/// Key `i` gives `target` at `level`.
pub open spec fn key_gives(t: KeymapTable, i: int, level: int, target: u32) -> bool {
    0 <= i < t.keys@.len() && 0 <= level <= 1 && level_syms(t, i, level).contains(target)
}

/// Key `j` at level `m` comes before key `i` at level `l` in the search
/// order (keycodes ascending, level 0 before level 1).
pub open spec fn searched_before(j: int, m: int, i: int, l: int) -> bool {
    j < i || (j == i && m < l)
}

/// Key `i` at `level` is the first place, in search order, giving `target`.
pub open spec fn first_giving(t: KeymapTable, i: int, level: int, target: u32) -> bool {
    &&& key_gives(t, i, level, target)
    &&& forall|j: int, m: int|
        #![trigger key_gives(t, j, m, target)]
        searched_before(j, m, i, level) ==> !key_gives(t, j, m, target)
}

/// The evdev keycode of xkb keycode `kc` (xkb codes are evdev codes plus 8;
/// saturating at 0).
pub open spec fn evdev_of(kc: int) -> u32 {
    if kc >= 8 {
        (kc - 8) as u32
    } else {
        0
    }
}

/// Whether `v` occurs in `s`.
fn contains_u32(s: &Vec<u32>, v: u32) -> (r: bool)
    ensures
        r == s@.contains(v),
{
    let mut i: usize = 0;
    while i < s.len()
        invariant
            i <= s@.len(),
            forall|k: int| 0 <= k < i ==> s@[k] != v,
        decreases s@.len() - i,
    {
        if s[i] == v {
            return true;
        }
        i = i + 1;
    }
    false
}

/// Find the evdev keycode that produces keysym `target` (looked up by name
/// with xkbcommon by the caller) at shift level 0 or 1: the first key in keycode order, level 0 before level 1. Returns
/// `(evdev_keycode, needs_shift)`; nothing for keysym 0 (`NoSymbol`).
pub fn resolve_keycode(t: &KeymapTable, target: u32) -> (r: Option<(u32, bool)>)
    requires
        table_fits(*t),
    ensures
        r is None <==> target == 0 || forall|i: int, l: int| !key_gives(*t, i, l, target),
        r matches Some((kc, shift)) ==> exists|i: int, l: int|
            #[trigger] first_giving(*t, i, l, target) && kc == evdev_of(t.min_keycode + i)
                && shift == (l == 1),
{
    if target == 0 {
        return None;
    }
    let n = t.keys.len();
    let mut i: usize = 0;
    while i < n
        invariant
            n == t.keys@.len(),
            i <= n,
            table_fits(*t),
            target != 0,
            forall|j: int, m: int| 0 <= j < i ==> !key_gives(*t, j, m, target),
        decreases n - i,
    {
        let k = &t.keys[i];
        let kc = t.min_keycode + i as u32;
        let evdev = if kc >= 8 {
            kc - 8
        } else {
            0
        };
        if contains_u32(&k.level0, target) {
            assert(first_giving(*t, i as int, 0, target));
            return Some((evdev, false));
        }
        if contains_u32(&k.level1, target) {
            assert(first_giving(*t, i as int, 1, target));
            return Some((evdev, true));
        }
        assert forall|m: int| !key_gives(*t, i as int, m, target) by {}
        i = i + 1;
    }
    None
}

// --- key events ------------------------------------------------------------

/// Which half of a key stroke to send.
#[derive(Clone, Copy, PartialEq, Eq, Debug, Structural)]
pub enum KeyDir {
    Press,
    Release,
    PressRelease,
}

/// One key state change: the evdev keycode, pressed or released.
#[derive(Clone, Copy, PartialEq, Eq, Debug, Structural)]
pub struct KeyEvent {
    pub keycode: u32,
    pub pressed: bool,
}

/// The events of one stroke of `keycode`. With `shift` (the Shift keycode
/// when the keysym needs level 1) Shift is pressed before the key goes down
/// and released after it comes up.
pub open spec fn key_events_spec(dir: KeyDir, keycode: u32, shift: Option<u32>) -> Seq<KeyEvent> {
    let shift_down = match shift {
        Some(s) => seq![KeyEvent { keycode: s, pressed: true }],
        None => Seq::empty(),
    };
    let shift_up = match shift {
        Some(s) => seq![KeyEvent { keycode: s, pressed: false }],
        None => Seq::empty(),
    };
    let down = seq![KeyEvent { keycode, pressed: true }];
    let up = seq![KeyEvent { keycode, pressed: false }];
    match dir {
        KeyDir::Press => shift_down + down,
        KeyDir::Release => up + shift_up,
        KeyDir::PressRelease => shift_down + down + up + shift_up,
    }
}

/// The events of one stroke (see `key_events_spec`); Shift is used only
/// when the keysym needs it and the keymap has a Shift key.
pub fn key_events(dir: KeyDir, keycode: u32, needs_shift: bool, shift_kc: Option<u32>) -> (r: Vec<
    KeyEvent,
>)
    ensures
        r@ == key_events_spec(dir, keycode, if needs_shift { shift_kc } else { None }),
{
    let shift = if needs_shift {
        shift_kc
    } else {
        None
    };
    let mut out: Vec<KeyEvent> = Vec::new();
    match dir {
        KeyDir::Press => {
            if let Some(s) = shift {
                out.push(KeyEvent { keycode: s, pressed: true });
            }
            out.push(KeyEvent { keycode, pressed: true });
        },
        KeyDir::Release => {
            out.push(KeyEvent { keycode, pressed: false });
            if let Some(s) = shift {
                out.push(KeyEvent { keycode: s, pressed: false });
            }
        },
        KeyDir::PressRelease => {
            if let Some(s) = shift {
                out.push(KeyEvent { keycode: s, pressed: true });
            }
            out.push(KeyEvent { keycode, pressed: true });
            out.push(KeyEvent { keycode, pressed: false });
            if let Some(s) = shift {
                out.push(KeyEvent { keycode: s, pressed: false });
            }
        },
    }
    assert(out@ =~= key_events_spec(dir, keycode, shift));
    out
}

/// Why a key could not be sent.
#[derive(Debug)]
pub enum KeyError {
    /// The portal sent no keymap.
    NoKeymap,
    /// The keysym is not in the server keymap.
    NotFound(String),
}

impl KeyError {
    /// The message for the log.
    pub fn message(&self) -> (r: String)
        ensures
            r@ == match self {
                KeyError::NoKeymap => "no keymap received from portal"@,
                KeyError::NotFound(k) => "keysym '"@ + k@ + "' not found in server keymap"@,
            },
    {
        match self {
            KeyError::NoKeymap => "no keymap received from portal".to_owned(),
            KeyError::NotFound(k) => "keysym '".to_owned().concat(k.as_str()).concat(
                "' not found in server keymap",
            ),
        }
    }
}

/// The evdev keycode of the first key giving keysym `target`, if any.
pub open spec fn keycode_spec(t: KeymapTable, target: u32) -> Option<u32> {
    if target == 0 || forall|i: int, l: int| !key_gives(t, i, l, target) {
        None
    } else {
        let (i, l) = choose|i: int, l: int| first_giving(t, i, l, target);
        Some(evdev_of(t.min_keycode + i))
    }
}

/// The events of one stroke of keysym `target` in the keymap: nothing when
/// no key gives it (or it is `NoSymbol`); otherwise the stroke of the first
/// key giving it, with the key giving `shift` (Shift_L) around it when that
/// is at level 1.
pub open spec fn stroke_spec(t: KeymapTable, target: u32, shift: u32, dir: KeyDir) -> Option<
    Seq<KeyEvent>,
> {
    if target == 0 || forall|i: int, l: int| !key_gives(t, i, l, target) {
        None
    } else {
        let (i, l) = choose|i: int, l: int| first_giving(t, i, l, target);
        Some(
            key_events_spec(
                dir,
                evdev_of(t.min_keycode + i),
                if l == 1 {
                    keycode_spec(t, shift)
                } else {
                    None
                },
            ),
        )
    }
}

/// The events for one stroke of the keysym named `keysym`, whose value is
/// `target` (and Shift_L's `shift`): its keycode resolved in the keymap,
/// Shift added when it needs level 1. Fails without a keymap, or when the
/// keysym is not in it.
pub fn key_stroke(
    keymap: Option<&KeymapTable>,
    keysym: &str,
    target: u32,
    shift: u32,
    dir: KeyDir,
) -> (r: Result<Vec<KeyEvent>, KeyError>)
    requires
        keymap matches Some(t) ==> table_fits(*t),
    ensures
        keymap is None ==> r matches Err(KeyError::NoKeymap),
        keymap matches Some(t) ==> match stroke_spec(*t, target, shift, dir) {
            None => r matches Err(KeyError::NotFound(k)) && k@ == keysym@,
            Some(ev) => r matches Ok(e) && e@ == ev,
        },
{
    let t = match keymap {
        None => return Err(KeyError::NoKeymap),
        Some(t) => t,
    };
    let (kc, needs_shift) = match resolve_keycode(t, target) {
        None => return Err(KeyError::NotFound(keysym.to_owned())),
        Some(p) => p,
    };
    let shift_kc = match resolve_keycode(t, shift) {
        Some((s, _)) => Some(s),
        None => None,
    };
    proof {
        lemma_keycode_spec(*t, shift, shift_kc);
        let (i, l) = choose|i: int, l: int|
            #[trigger] first_giving(*t, i, l, target) && kc == evdev_of(t.min_keycode + i)
                && needs_shift == (l == 1);
        let (j, m) = choose|j: int, m: int| first_giving(*t, j, m, target);
        lemma_first_unique(*t, i, l, j, m, target);
    }
    Ok(key_events(dir, kc, needs_shift, shift_kc))
}

/// Two first places of a keysym are the same place.
proof fn lemma_first_unique(t: KeymapTable, i: int, l: int, j: int, m: int, target: u32)
    requires
        first_giving(t, i, l, target),
        first_giving(t, j, m, target),
    ensures
        i == j && l == m,
{
    if searched_before(j, m, i, l) {
        assert(!key_gives(t, j, m, target));
    } else if searched_before(i, l, j, m) {
        assert(!key_gives(t, i, l, target));
    }
}

/// The keycode `resolve_keycode` gives is `keycode_spec`.
proof fn lemma_keycode_spec(t: KeymapTable, target: u32, kc: Option<u32>)
    requires
        kc is None <==> target == 0 || forall|i: int, l: int| !key_gives(t, i, l, target),
        kc matches Some(k) ==> exists|i: int, l: int|
            #[trigger] first_giving(t, i, l, target) && k == evdev_of(t.min_keycode + i),
    ensures
        kc == keycode_spec(t, target),
{
    if let Some(k) = kc {
        let (i, l) = choose|i: int, l: int|
            #[trigger] first_giving(t, i, l, target) && k == evdev_of(t.min_keycode + i);
        let (j, m) = choose|j: int, m: int| first_giving(t, j, m, target);
        lemma_first_unique(t, i, l, j, m, target);
    }
}

/// The keysyms of the chord's keys, as xkbcommon names them.
#[derive(Clone, Copy, PartialEq, Eq, Debug, Structural)]
pub struct ChordKeysyms {
    /// `Control_L`.
    pub control: u32,
    /// `v`.
    pub v: u32,
    /// `Shift_L`.
    pub shift: u32,
}

/// The frames of the Ctrl+V chord (Control_L down, v struck, Control_L
/// up; each stroke one frame) up to the first stroke that cannot be
/// resolved, and the keysym name of that stroke (none when all resolve).
/// Ctrl stays logically held across the frames until its release, so the
/// target sees a real Ctrl+V.
pub open spec fn ctrl_v_spec(t: KeymapTable, k: ChordKeysyms) -> (Seq<Seq<KeyEvent>>, Option<Seq<char>>) {
    let a = stroke_spec(t, k.control, k.shift, KeyDir::Press);
    let b = stroke_spec(t, k.v, k.shift, KeyDir::PressRelease);
    let c = stroke_spec(t, k.control, k.shift, KeyDir::Release);
    match a {
        None => (Seq::empty(), Some("Control_L"@)),
        Some(ea) => match b {
            None => (seq![ea], Some("v"@)),
            Some(eb) => match c {
                None => (seq![ea, eb], Some("Control_L"@)),
                Some(ec) => (seq![ea, eb, ec], None),
            },
        },
    }
}

/// The frames to emit for Ctrl+V, in order, and the error met when a
/// stroke cannot be resolved (the frames before it are still sent, as the
/// strokes are sent one by one).
pub fn ctrl_v_frames(keymap: Option<&KeymapTable>, k: ChordKeysyms) -> (r: (
    Vec<Vec<KeyEvent>>,
    Option<KeyError>,
))
    requires
        keymap matches Some(t) ==> table_fits(*t),
    ensures
        keymap is None ==> r.0@.len() == 0 && r.1 matches Some(KeyError::NoKeymap),
        keymap matches Some(t) ==> {
            let (frames, missing) = ctrl_v_spec(*t, k);
            &&& r.0@.len() == frames.len()
            &&& forall|i: int| 0 <= i < frames.len() ==> #[trigger] r.0@[i]@ == frames[i]
            &&& match missing {
                None => r.1 is None,
                Some(name) => r.1 matches Some(KeyError::NotFound(n)) && n@ == name,
            }
        },
{
    proof {
        reveal_strlit("Control_L");
        reveal_strlit("v");
    }
    let mut frames: Vec<Vec<KeyEvent>> = Vec::new();
    match key_stroke(keymap, "Control_L", k.control, k.shift, KeyDir::Press) {
        Ok(ev) => frames.push(ev),
        Err(e) => return (frames, Some(e)),
    }
    match key_stroke(keymap, "v", k.v, k.shift, KeyDir::PressRelease) {
        Ok(ev) => frames.push(ev),
        Err(e) => return (frames, Some(e)),
    }
    match key_stroke(keymap, "Control_L", k.control, k.shift, KeyDir::Release) {
        Ok(ev) => frames.push(ev),
        Err(e) => return (frames, Some(e)),
    }
    (frames, None)
}

// --- libei events ----------------------------------------------------------

/// The libei events the session reacts to. Devices are named by a handle
/// the caller assigns (equal handles for the same device).
pub enum EiEventKind {
    SeatAdded,
    DeviceAdded { device: u64, keyboard: bool },
    DeviceResumed,
    DeviceRemoved { device: u64 },
    Other,
}

/// What the caller does for an event.
#[derive(Clone, Copy, PartialEq, Eq, Debug, Structural)]
pub struct EventOutcome {
    /// Bind only the keyboard capability of the new seat, then flush.
    pub bind_keyboard: bool,
    /// Load the new keyboard's keymap (when it carries one).
    pub load_keymap: bool,
    /// A keyboard device has resumed: keys can be sent.
    pub ready: bool,
}

/// The keyboard device the session emits through.
pub struct DeviceTracker {
    pub keyboard: Option<u64>,
}

impl DeviceTracker {
    /// No keyboard known yet.
    pub fn new() -> (r: DeviceTracker)
        ensures
            r.keyboard is None,
    {
        DeviceTracker { keyboard: None }
    }

    /// Keyboard-only: a new seat gets just its keyboard bound; a new device
    /// with the keyboard capability becomes the keyboard (its keymap is
    /// loaded); a resumed device makes the session ready once a keyboard is
    /// known; removing the keyboard forgets it.
    pub fn handle(&mut self, ev: &EiEventKind) -> (r: EventOutcome)
        ensures
            match *ev {
                EiEventKind::SeatAdded => final(self).keyboard == old(self).keyboard && r
                    == EventOutcome { bind_keyboard: true, load_keymap: false, ready: false },
                EiEventKind::DeviceAdded { device, keyboard } => if keyboard {
                    final(self).keyboard == Some(device) && r == EventOutcome {
                        bind_keyboard: false,
                        load_keymap: true,
                        ready: false,
                    }
                } else {
                    final(self).keyboard == old(self).keyboard && r == EventOutcome {
                        bind_keyboard: false,
                        load_keymap: false,
                        ready: false,
                    }
                },
                EiEventKind::DeviceResumed => final(self).keyboard == old(self).keyboard && r
                    == EventOutcome {
                    bind_keyboard: false,
                    load_keymap: false,
                    ready: old(self).keyboard is Some,
                },
                EiEventKind::DeviceRemoved { device } => final(self).keyboard == (if old(
                    self,
                ).keyboard == Some(device) {
                    None
                } else {
                    old(self).keyboard
                }) && r == EventOutcome { bind_keyboard: false, load_keymap: false, ready: false },
                EiEventKind::Other => final(self).keyboard == old(self).keyboard && r
                    == EventOutcome { bind_keyboard: false, load_keymap: false, ready: false },
            },
    {
        let nothing = EventOutcome { bind_keyboard: false, load_keymap: false, ready: false };
        match ev {
            EiEventKind::SeatAdded => EventOutcome {
                bind_keyboard: true,
                load_keymap: false,
                ready: false,
            },
            EiEventKind::DeviceAdded { device, keyboard } => {
                if *keyboard {
                    self.keyboard = Some(*device);
                    EventOutcome { bind_keyboard: false, load_keymap: true, ready: false }
                } else {
                    nothing
                }
            },
            EiEventKind::DeviceResumed => EventOutcome {
                bind_keyboard: false,
                load_keymap: false,
                ready: self.keyboard.is_some(),
            },
            EiEventKind::DeviceRemoved { device } => {
                if self.keyboard == Some(*device) {
                    self.keyboard = None;
                }
                nothing
            },
            EiEventKind::Other => nothing,
        }
    }
}

// --- consent and the restore token ----------------------------------------

/// The paste permission looks granted when a live session is held this run,
/// or a restore token was cached from an earlier grant.
pub fn is_granted(live_session: bool, token_cached: bool) -> (r: bool)
    ensures
        r == (live_session || token_cached),
{
    live_session || token_cached
}

/// Whether a path is absolute (starts with `/`).
pub open spec fn is_absolute_path(p: Seq<char>) -> bool {
    p.len() > 0 && p[0] == '/'
}

/// `rel` (a relative path) appended to `base`, with a separator unless
/// `base` is empty or already ends with one.
pub open spec fn join_path_spec(base: Seq<char>, rel: Seq<char>) -> Seq<char> {
    if base.len() == 0 {
        rel
    } else if base.last() == '/' {
        base + rel
    } else {
        base + "/"@ + rel
    }
}

/// Append the relative path `rel` to `base`.
pub fn join_path(base: &str, rel: &str) -> (r: String)
    ensures
        r@ == join_path_spec(base@, rel@),
{
    let n = base.unicode_len();
    if n == 0 {
        return rel.to_owned();
    }
    let last = base.get_char(n - 1);
    if last == '/' {
        base.to_owned().concat(rel)
    } else {
        base.to_owned().concat("/").concat(rel)
    }
}

/// The state directory: `$XDG_STATE_HOME` when set and absolute, else
/// `$HOME/.local/state`.
pub open spec fn state_dir_spec(xdg_state_home: Option<Seq<char>>, home: Option<Seq<char>>) -> Option<
    Seq<char>,
> {
    match xdg_state_home {
        Some(x) if is_absolute_path(x) => Some(x),
        _ => match home {
            Some(h) => Some(join_path_spec(h, ".local/state"@)),
            None => None,
        },
    }
}

/// Where the restore token is cached: `<state dir>/linux-clipboard/portal.token`.
pub open spec fn token_path_spec(xdg_state_home: Option<Seq<char>>, home: Option<Seq<char>>) -> Option<
    Seq<char>,
> {
    match state_dir_spec(xdg_state_home, home) {
        Some(base) => Some(
            join_path_spec(join_path_spec(base, "linux-clipboard"@), "portal.token"@),
        ),
        None => None,
    }
}

/// The token file's path from `$XDG_STATE_HOME` and `$HOME` (`None` when
/// unset); none when neither gives a base.
pub fn token_path(xdg_state_home: Option<&str>, home: Option<&str>) -> (r: Option<String>)
    ensures
        match r {
            Some(p) => token_path_spec(
                match xdg_state_home {
                    Some(x) => Some(x@),
                    None => None,
                },
                match home {
                    Some(h) => Some(h@),
                    None => None,
                },
            ) == Some(p@),
            None => token_path_spec(
                match xdg_state_home {
                    Some(x) => Some(x@),
                    None => None,
                },
                match home {
                    Some(h) => Some(h@),
                    None => None,
                },
            ) is None,
        },
{
    let base: String = match xdg_state_home {
        Some(x) if x.unicode_len() > 0 && x.get_char(0) == '/' => x.to_owned(),
        _ => match home {
            Some(h) => join_path(h, ".local/state"),
            None => return None,
        },
    };
    proof {
        reveal_strlit(".local/state");
        reveal_strlit("linux-clipboard");
        reveal_strlit("portal.token");
    }
    let dir = join_path(base.as_str(), "linux-clipboard");
    Some(join_path(dir.as_str(), "portal.token"))
}

/// A cached token is taken only when written with the current schema.
pub fn accept_cached_token(schema_version: u32, token: String) -> (r: Option<String>)
    ensures
        schema_version == TOKEN_SCHEMA_VERSION ==> r == Some(token),
        schema_version != TOKEN_SCHEMA_VERSION ==> r is None,
{
    if schema_version == TOKEN_SCHEMA_VERSION {
        Some(token)
    } else {
        None
    }
}

/// The next step after a consent flow (select devices, then start).
#[derive(Clone, Copy, PartialEq, Eq, Debug, Structural)]
pub enum FlowStep {
    /// Devices were selected: save the returned token (if any) and connect.
    Proceed,
    /// The cached token was rejected: run the flow once more without it
    /// (forcing a fresh consent dialog). The cache file is left alone.
    RetryWithoutToken,
    /// Close the session and fail.
    CloseAndFail,
}

/// A failed flow is retried once, without the token, when the failed try
/// used a cached token; otherwise the session is closed.
pub fn after_session_flow(ok: bool, used_cached_token: bool, retried: bool) -> (r: FlowStep)
    ensures
        ok ==> r == FlowStep::Proceed,
        !ok && used_cached_token && !retried ==> r == FlowStep::RetryWithoutToken,
        !ok && !(used_cached_token && !retried) ==> r == FlowStep::CloseAndFail,
{
    if ok {
        FlowStep::Proceed
    } else if used_cached_token && !retried {
        FlowStep::RetryWithoutToken
    } else {
        FlowStep::CloseAndFail
    }
}

/// The message for a portal error, with how to install a backend.
pub open spec fn portal_error_text(e: Seq<char>) -> Seq<char> {
    "RemoteDesktop portal error: "@ + e
        + "\nThe compositor may not expose org.freedesktop.portal.RemoteDesktop. Fix:\n  GNOME: install xdg-desktop-portal-gnome\n  KDE:   install xdg-desktop-portal-kde"@
}

/// Explain a portal error.
pub fn portal_error_message(e: &str) -> (r: String)
    ensures
        r@ == portal_error_text(e@),
{
    "RemoteDesktop portal error: ".to_owned().concat(e).concat(
        "\nThe compositor may not expose org.freedesktop.portal.RemoteDesktop. Fix:\n  GNOME: install xdg-desktop-portal-gnome\n  KDE:   install xdg-desktop-portal-kde",
    )
}


/// A stroke is a press followed by a release: the events of `PressRelease`
/// are those of `Press` then those of `Release`, so Shift (when used) is
/// held exactly around the key.
pub proof fn law_stroke_is_press_then_release(keycode: u32, shift: Option<u32>)
    ensures
        key_events_spec(KeyDir::PressRelease, keycode, shift) == key_events_spec(
            KeyDir::Press,
            keycode,
            shift,
        ) + key_events_spec(KeyDir::Release, keycode, shift),
{
    assert(key_events_spec(KeyDir::PressRelease, keycode, shift) =~= key_events_spec(
        KeyDir::Press,
        keycode,
        shift,
    ) + key_events_spec(KeyDir::Release, keycode, shift));
}

/// The Ctrl+V chord leaves no key down: when every stroke resolves, its
/// frames are Control_L's press, the whole stroke of v, and Control_L's
/// release, and Control_L's press and release are the two halves of one
/// stroke.
pub proof fn law_chord_releases_ctrl(t: KeymapTable, k: ChordKeysyms)
    requires
        ctrl_v_spec(t, k).1 is None,
    ensures
        ({
            let frames = ctrl_v_spec(t, k).0;
            &&& frames.len() == 3
            &&& stroke_spec(t, k.control, k.shift, KeyDir::Press) == Some(frames[0])
            &&& stroke_spec(t, k.v, k.shift, KeyDir::PressRelease) == Some(frames[1])
            &&& stroke_spec(t, k.control, k.shift, KeyDir::Release) == Some(frames[2])
            &&& Some(frames[0] + frames[2]) == stroke_spec(t, k.control, k.shift, KeyDir::PressRelease)
        }),
{
    let target = k.control;
    if !(target == 0 || forall|i: int, l: int| !key_gives(t, i, l, target)) {
        let (i, l) = choose|i: int, l: int| first_giving(t, i, l, target);
        law_stroke_is_press_then_release(
            evdev_of(t.min_keycode + i),
            if l == 1 {
                keycode_spec(t, k.shift)
            } else {
                None
            },
        );
    }
}

} // verus!
