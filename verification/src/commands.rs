//! What the frontend's commands do to the history, the settings and the
//! session: listing and searching, pinning and deleting, picking an item to
//! paste back, and applying a new hotkey. Locking shared state, talking to
//! the window and the desktop, and notifying the frontend is left to the
//! caller.

use vstd::prelude::*;
use crate::db::{
    HistoryStore, HistoryRow, GcPaths, SelectionSpec, clips_of, is_listing, selects,
    find_clip, update_row, bumped, with_pinned, table_wf, gc_all, id_is, id_is_not,
    kept_by_clear, cleared_by_clear,
};
use crate::models::{Clip, OpResult, Settings, SessionInfo};
use crate::text::{str_eq, trim, trim_is_empty};
use crate::gnome::{
    call_views, configure, configure_calls, ensure, to_gnome_accel, gnome_accel, spec_slot,
    parse_list_spec,
};

verus! {

/// The listing size when the frontend names none.
pub const DEFAULT_LIMIT: i64 = 200;

/// The limit asked for, or the default.
pub open spec fn limit_or_default(limit: Option<i64>) -> i64 {
    match limit {
        Some(l) => l,
        None => DEFAULT_LIMIT,
    }
}

/// The history listing (see `HistoryStore::list_history`), `DEFAULT_LIMIT`
/// clips when no limit is given.
pub fn get_history(store: &HistoryStore, limit: Option<i64>) -> (out: Vec<Clip>)
    ensures
        is_listing(
            clips_of(store@),
            |c: Clip| selects(SelectionSpec::All, c),
            limit_or_default(limit),
            out@,
        ),
{
    let l = match limit {
        Some(l) => l,
        None => DEFAULT_LIMIT,
    };
    store.list_history(l)
}

/// A blank query (only whitespace) lists the history; any other query
/// searches text clips for it as typed.
pub fn search_history(store: &HistoryStore, query: &str, limit: Option<i64>) -> (out: Vec<Clip>)
    ensures
        trim(query@).len() == 0 ==> is_listing(
            clips_of(store@),
            |c: Clip| selects(SelectionSpec::All, c),
            limit_or_default(limit),
            out@,
        ),
        trim(query@).len() != 0 ==> is_listing(
            clips_of(store@),
            |c: Clip| selects(SelectionSpec::TextContaining(query@), c),
            limit_or_default(limit),
            out@,
        ),
{
    let l = match limit {
        Some(l) => l,
        None => DEFAULT_LIMIT,
    };
    if trim_is_empty(query) {
        store.list_history(l)
    } else {
        store.search(query, l)
    }
}

/// The pinned clips (see `HistoryStore::list_pins`).
pub fn get_pins(store: &HistoryStore) -> (out: Vec<Clip>)
    ensures
        is_listing(clips_of(store@), |c: Clip| selects(SelectionSpec::Pinned, c), -1i64, out@),
{
    store.list_pins()
}

/// Pin or unpin the clip with id `id`.
pub fn pin_item(store: &mut HistoryStore, id: i64, pinned: bool)
    ensures
        table_wf(final(store)@, final(store).last_id()),
        final(store).last_id() == old(store).last_id(),
        final(store)@ == update_row(old(store)@, id, |r: HistoryRow| with_pinned(r, pinned)),
{
    store.set_pinned(id, pinned)
}

/// Delete the clip with id `id`; the image files it held are returned for
/// deletion.
pub fn delete_item(store: &mut HistoryStore, id: i64) -> (gc: Vec<GcPaths>)
    ensures
        table_wf(final(store)@, final(store).last_id()),
        final(store).last_id() == old(store).last_id(),
        final(store)@ == old(store)@.filter(id_is_not(id)),
        gc@ == gc_all(old(store)@.filter(id_is(id))),
{
    store.delete(id)
}

/// Clear the history (keeping the pinned clips when asked); the image files
/// freed are returned for deletion.
pub fn clear_history(store: &mut HistoryStore, keep_pinned: bool) -> (gc: Vec<GcPaths>)
    ensures
        table_wf(final(store)@, final(store).last_id()),
        final(store).last_id() == old(store).last_id(),
        final(store)@ == old(store)@.filter(kept_by_clear(keep_pinned)),
        gc@ == gc_all(old(store)@.filter(cleared_by_clear(keep_pinned))),
{
    store.clear(keep_pinned)
}

/// What to put back on the clipboard for a picked clip.
pub enum ClipWrite {
    /// Write this text.
    Text(String),
    /// Load the PNG at this path and write its pixels.
    Image(String),
    /// Nothing to write (a row without its payload).
    Nothing,
}

/// The write for a clip: its text for a text clip with content, its image
/// file for an image clip with one, nothing otherwise.
pub open spec fn write_matches(w: ClipWrite, c: Clip) -> bool {
    if c.kind@ == "text"@ && c.content is Some {
        w matches ClipWrite::Text(t) && t@ == c.content->0@
    } else if c.kind@ == "image"@ && c.image_path is Some {
        w matches ClipWrite::Image(p) && p@ == c.image_path->0@
    } else {
        w is Nothing
    }
}

/// What picking a clip leads to.
pub struct PastePlan {
    /// The clip exists (otherwise nothing else happens).
    pub found: bool,
    /// What to put on the clipboard (suppressed from recording).
    pub write: ClipWrite,
    /// Ask, once per session, whether to grant the Wayland permission.
    pub prompt: bool,
    /// Send Ctrl+V once the focus has settled.
    pub auto_paste: bool,
    /// The answer to the frontend.
    pub result: OpResult,
}

/// Whether an answer is success with the note "copied".
pub open spec fn is_copied(r: OpResult) -> bool {
    &&& r.ok
    &&& r.reason matches Some(s) && s@ == "copied"@
}

/// After picking a clip: whether to ask for the portal permission, whether
/// to send Ctrl+V, and whether the question has now been asked this session.
/// `can` is auto-paste on and possible, `waiting` the Wayland permission not
/// yet granted, `shown` the question already asked.
pub open spec fn paste_decision(can: bool, waiting: bool, shown: bool) -> (bool, bool, bool) {
    if !can {
        (false, false, shown)
    } else if waiting {
        (!shown, false, true)
    } else {
        (false, true, shown)
    }
}

/// The permission question is asked at most once per session: a paste that
/// asks it marks it asked, and no later paste asks again.
pub proof fn law_prompt_at_most_once(
    can1: bool,
    waiting1: bool,
    shown: bool,
    can2: bool,
    waiting2: bool,
)
    ensures
        shown ==> !paste_decision(can1, waiting1, shown).0,
        paste_decision(can1, waiting1, shown).0 ==> !paste_decision(
            can2,
            waiting2,
            paste_decision(can1, waiting1, shown).2,
        ).0,
{
}

/// Picking a clip only copies it unless auto-paste is on and possible: then
/// no question is asked, no Ctrl+V is sent and the asked-flag is left as it
/// was. The permission question comes only with auto-paste on and possible
/// and the permission missing, and not a second time; Ctrl+V is sent exactly
/// when auto-paste is on and possible and the permission is not missing.
pub proof fn law_paste_needs_auto_paste(can: bool, waiting: bool, shown: bool)
    ensures
        !can ==> paste_decision(can, waiting, shown) == (false, false, shown),
        paste_decision(can, waiting, shown).0 ==> can && waiting && !shown,
        paste_decision(can, waiting, shown).1 <==> can && !waiting,
        paste_decision(can, waiting, shown).2 != shown ==> can && waiting,
        !(paste_decision(can, waiting, shown).0 && paste_decision(can, waiting, shown).1),
{
}

/// Pick clip `id` for pasting at time `now`. Picking counts as re-using
/// it: the clip moves to the top. Its payload goes back on the clipboard;
/// then, when auto-paste is on and possible in this session, Ctrl+V is sent,
/// except on Wayland before the portal permission is granted: then the user
/// is asked once per session (`prompt_shown`) and the clip is only copied.
pub fn paste_item(
    store: &mut HistoryStore,
    id: i64,
    now: i64,
    auto_paste: bool,
    session: &SessionInfo,
    portal_granted: bool,
    prompt_shown: &mut bool,
) -> (r: PastePlan)
    ensures
        table_wf(final(store)@, final(store).last_id()),
        final(store).last_id() == old(store).last_id(),
        match find_clip(old(store)@, id) {
            None => {
                &&& !r.found
                &&& final(store)@ == old(store)@
                &&& *final(prompt_shown) == *old(prompt_shown)
                &&& r.write is Nothing
                &&& !r.prompt
                &&& !r.auto_paste
                &&& !r.result.ok
                &&& (r.result.reason matches Some(s) && s@ == "not_found"@)
            },
            Some(c) => {
                let d = paste_decision(
                    auto_paste && session.can_auto_paste,
                    session.auto_paste_backend@ == "portal"@ && !portal_granted,
                    *old(prompt_shown),
                );
                &&& r.found
                &&& final(store)@ == update_row(old(store)@, id, |x: HistoryRow| bumped(x, now))
                &&& write_matches(r.write, c)
                &&& r.prompt == d.0
                &&& r.auto_paste == d.1
                &&& *final(prompt_shown) == d.2
                &&& d.1 ==> r.result.ok && r.result.reason is None
                &&& !d.1 ==> is_copied(r.result)
            },
        },
{
    store.lemma_wf();
    let clip = match store.get(id) {
        None => {
            return PastePlan {
                found: false,
                write: ClipWrite::Nothing,
                prompt: false,
                auto_paste: false,
                result: OpResult::err("not_found"),
            };
        },
        Some(c) => c,
    };
    store.bump_used(id, now);
    proof {
        reveal_strlit("text");
        reveal_strlit("image");
        reveal_strlit("portal");
        reveal_strlit("copied");
        reveal_strlit("not_found");
    }
    let write = if str_eq(clip.kind.as_str(), "text") && clip.content.is_some() {
        match &clip.content {
            Some(t) => ClipWrite::Text(t.clone()),
            None => ClipWrite::Nothing,
        }
    } else if str_eq(clip.kind.as_str(), "image") && clip.image_path.is_some() {
        match &clip.image_path {
            Some(p) => ClipWrite::Image(p.clone()),
            None => ClipWrite::Nothing,
        }
    } else {
        ClipWrite::Nothing
    };
    if !(auto_paste && session.can_auto_paste) {
        return PastePlan {
            found: true,
            write,
            prompt: false,
            auto_paste: false,
            result: OpResult::ok_with("copied"),
        };
    }
    if str_eq(session.auto_paste_backend.as_str(), "portal") && !portal_granted {
        let prompt = !*prompt_shown;
        *prompt_shown = true;
        return PastePlan {
            found: true,
            write,
            prompt,
            auto_paste: false,
            result: OpResult::ok_with("copied"),
        };
    }
    PastePlan { found: true, write, prompt: false, auto_paste: true, result: OpResult::ok() }
}

/// What storing new settings calls for besides saving them.
#[derive(Clone, Copy, PartialEq, Eq, Debug, Structural)]
pub struct SettingsEffects {
    /// The hotkey changed: bind the new one.
    pub rebind_hotkey: bool,
    /// Auto-paste or the language changed: rebuild the tray menu.
    pub refresh_tray: bool,
}

/// Compare the stored settings with the new ones.
pub fn settings_effects(old: &Settings, new: &Settings) -> (r: SettingsEffects)
    ensures
        r.rebind_hotkey == (new.hotkey@ != old.hotkey@),
        r.refresh_tray == (new.auto_paste != old.auto_paste || new.language@ != old.language@),
{
    SettingsEffects {
        rebind_hotkey: !str_eq(new.hotkey.as_str(), old.hotkey.as_str()),
        refresh_tray: new.auto_paste != old.auto_paste || !str_eq(
            new.language.as_str(),
            old.language.as_str(),
        ),
    }
}

/// How a session binds the panel hotkey.
#[derive(Clone, Copy, PartialEq, Eq, Debug, Structural)]
pub enum HotkeyRoute {
    /// A GNOME custom keybinding running `<app> --toggle`.
    Gnome,
    /// The in-app global shortcut (X11).
    GlobalShortcut,
    /// No automatic backend: the user binds it by hand.
    Manual,
}

/// The route for a session's hotkey backend.
pub fn hotkey_route(backend: &str) -> (r: HotkeyRoute)
    ensures
        r == (if backend@ == "gnome"@ {
            HotkeyRoute::Gnome
        } else if backend@ == "global-shortcut"@ {
            HotkeyRoute::GlobalShortcut
        } else {
            HotkeyRoute::Manual
        }),
{
    if str_eq(backend, "gnome") {
        HotkeyRoute::Gnome
    } else if str_eq(backend, "global-shortcut") {
        HotkeyRoute::GlobalShortcut
    } else {
        HotkeyRoute::Manual
    }
}

/// The error of binding a hotkey where no backend exists.
pub open spec fn no_backend_text() -> Seq<char> {
    "no_hotkey_backend"@
}

/// The command a keybinding runs to toggle the panel: the executable's
/// path followed by ` --toggle`; an error when the path is unknown (empty).
pub fn toggle_command(exe: &str) -> (r: Result<String, String>)
    ensures
        exe@.len() == 0 ==> (r matches Err(e) && e@ == "no_exe"@),
        exe@.len() != 0 ==> (r matches Ok(c) && c@ == exe@ + " --toggle"@),
{
    if exe.unicode_len() == 0 {
        return Err("no_exe".to_owned());
    }
    Ok(exe.to_owned().concat(" --toggle"))
}

/// The command to show a user who binds the key by hand: the toggle command,
/// or the bare binary name when the executable path is unknown.
pub fn get_toggle_command(exe: &str) -> (r: String)
    ensures
        exe@.len() == 0 ==> r@ == "linux-clipboard --toggle"@,
        exe@.len() != 0 ==> r@ == exe@ + " --toggle"@,
{
    match toggle_command(exe) {
        Ok(c) => c,
        Err(_) => "linux-clipboard --toggle".to_owned(),
    }
}

/// Record the outcome of binding `accel` through `backend` in the settings.
/// On success the hotkey is stored (and, through GNOME, the shortcut is
/// marked configured). Where no backend exists the combination is still
/// stored so the UI shows it and the user can bind it by hand. Returns the
/// answer and whether the settings are to be saved.
pub fn set_hotkey(settings: &mut Settings, backend: &str, accel: &str, applied: Result<(), String>) -> (r: (OpResult, bool))
    ensures
        match applied {
            Ok(()) => {
                &&& r.0.ok && r.0.reason is None
                &&& r.1
                &&& final(settings).hotkey@ == accel@
                &&& final(settings).gnome_shortcut_configured == (old(settings).gnome_shortcut_configured
                    || backend@ == "gnome"@)
                &&& *final(settings) == (Settings {
                    hotkey: final(settings).hotkey,
                    gnome_shortcut_configured: final(settings).gnome_shortcut_configured,
                    ..*old(settings)
                })
            },
            Err(e) => {
                &&& !r.0.ok
                &&& r.0.reason matches Some(s) && s@ == e@
                &&& r.1 == (e@ == no_backend_text())
                &&& e@ == no_backend_text() ==> final(settings).hotkey@ == accel@
                    && *final(settings) == (Settings { hotkey: final(settings).hotkey, ..*old(settings) })
                &&& e@ != no_backend_text() ==> *final(settings) == *old(settings)
            },
        },
{
    match applied {
        Ok(()) => {
            settings.hotkey = accel.to_owned();
            if str_eq(backend, "gnome") {
                settings.gnome_shortcut_configured = true;
            }
            (OpResult::ok(), true)
        },
        Err(e) => {
            let no_backend = str_eq(e.as_str(), "no_hotkey_backend");
            if no_backend {
                settings.hotkey = accel.to_owned();
            }
            (OpResult::err(e.as_str()), no_backend)
        },
    }
}

/// Whether the process was started (or re-invoked) to toggle the panel:
/// any argument is exactly `--toggle`. Otherwise a second launch shows it.
pub fn argv_has_toggle(argv: &Vec<String>) -> (r: bool)
    ensures
        r == exists|i: int| 0 <= i < argv@.len() && argv@[i]@ == "--toggle"@,
{
    let mut i: usize = 0;
    while i < argv.len()
        invariant
            i <= argv@.len(),
            forall|k: int| 0 <= k < i ==> argv@[k]@ != "--toggle"@,
        decreases argv@.len() - i,
    {
        if str_eq(argv[i].as_str(), "--toggle") {
            return true;
        }
        i = i + 1;
    }
    false
}


/// How to bind a hotkey now.
pub enum HotkeyPlan {
    /// Run these `gsettings` calls in order (the first failure stops them).
    Gnome(Vec<Vec<String>>),
    /// Rebind the in-app global shortcut.
    GlobalShortcut,
    /// The hotkey cannot be bound automatically; the error for the frontend.
    Fail(String),
}

/// Bind `accel` with the session's backend, overwriting an earlier GNOME
/// binding (the "sync with GNOME" path): GNOME gets our keybinding slot
/// (re)written with the toggle command and the accelerator in GNOME's
/// notation; X11 rebinds the global shortcut; elsewhere the error is
/// `"no_hotkey_backend"`. `exe` is the executable's path (empty when
/// unknown), `current` the `custom-keybindings` value as read.
pub fn apply_hotkey(backend: &str, exe: &str, current: &str, accel: &str) -> (r: HotkeyPlan)
    ensures
        backend@ == "gnome"@ && exe@.len() == 0 ==> (r matches HotkeyPlan::Fail(e) && e@
            == "no_exe"@),
        backend@ == "gnome"@ && exe@.len() != 0 ==> (r matches HotkeyPlan::Gnome(calls)
            && call_views(calls@) == configure_calls(
            current@,
            exe@ + " --toggle"@,
            gnome_accel(accel@),
        )),
        backend@ != "gnome"@ && backend@ == "global-shortcut"@ ==> r is GlobalShortcut,
        backend@ != "gnome"@ && backend@ != "global-shortcut"@ ==> (r matches HotkeyPlan::Fail(e)
            && e@ == no_backend_text()),
{
    proof {
        reveal_strlit("no_hotkey_backend");
    }
    match hotkey_route(backend) {
        HotkeyRoute::Gnome => match toggle_command(exe) {
            Err(e) => HotkeyPlan::Fail(e),
            Ok(cmd) => {
                let ga = to_gnome_accel(accel);
                HotkeyPlan::Gnome(configure(current, cmd.as_str(), ga.as_str()))
            },
        },
        HotkeyRoute::GlobalShortcut => HotkeyPlan::GlobalShortcut,
        HotkeyRoute::Manual => HotkeyPlan::Fail("no_hotkey_backend".to_owned()),
    }
}

/// How the panel hotkey is installed at startup.
pub enum StartupHotkey {
    /// GNOME, our shortcut already exists: it is left as the user may have
    /// retuned it, and the settings are now marked configured; save them.
    GnomeKept,
    /// GNOME, our shortcut is missing: run these calls in order (the first
    /// failure stops them), then hand their outcome to
    /// `gnome_hotkey_created`.
    GnomeCreate(Vec<Vec<String>>),
    /// GNOME, but the toggle command is unknown; the error.
    NoCommand(String),
    /// X11: bind the in-app global shortcut to the stored hotkey (it binds
    /// per process, so on every launch).
    GlobalShortcut,
    /// No automatic backend: the user binds it by hand.
    Manual,
}

/// The settings with the GNOME shortcut marked configured.
pub open spec fn marked_configured(s: Settings) -> Settings {
    Settings { gnome_shortcut_configured: true, ..s }
}

/// Install the stored hotkey (`settings.hotkey`) at startup with the
/// session's backend. Unlike `apply_hotkey`, an existing GNOME shortcut is
/// kept; it then counts as configured.
pub fn init_hotkey(settings: &mut Settings, backend: &str, exe: &str, current: &str) -> (r:
    StartupHotkey)
    ensures
        backend@ == "gnome"@ && exe@.len() == 0 ==> (r matches StartupHotkey::NoCommand(e)
            && e@ == "no_exe"@) && *final(settings) == *old(settings),
        backend@ == "gnome"@ && exe@.len() != 0 && parse_list_spec(current@).contains(spec_slot())
            ==> r is GnomeKept && *final(settings) == marked_configured(*old(settings)),
        backend@ == "gnome"@ && exe@.len() != 0 && !parse_list_spec(current@).contains(spec_slot())
            ==> (r matches StartupHotkey::GnomeCreate(calls) && call_views(calls@)
            == configure_calls(
            current@,
            exe@ + " --toggle"@,
            gnome_accel(old(settings).hotkey@),
        )) && *final(settings) == *old(settings),
        backend@ != "gnome"@ && backend@ == "global-shortcut"@ ==> r is GlobalShortcut
            && *final(settings) == *old(settings),
        backend@ != "gnome"@ && backend@ != "global-shortcut"@ ==> r is Manual && *final(settings)
            == *old(settings),
{
    match hotkey_route(backend) {
        HotkeyRoute::Gnome => match toggle_command(exe) {
            Err(e) => StartupHotkey::NoCommand(e),
            Ok(cmd) => {
                let ga = to_gnome_accel(settings.hotkey.as_str());
                match ensure(current, cmd.as_str(), ga.as_str()) {
                    None => {
                        settings.gnome_shortcut_configured = true;
                        StartupHotkey::GnomeKept
                    },
                    Some(calls) => StartupHotkey::GnomeCreate(calls),
                }
            },
        },
        HotkeyRoute::GlobalShortcut => StartupHotkey::GlobalShortcut,
        HotkeyRoute::Manual => StartupHotkey::Manual,
    }
}

/// After the calls that create the GNOME shortcut: on success the settings
/// are marked configured and are to be saved (`true`); on failure nothing
/// changes.
pub fn gnome_hotkey_created(settings: &mut Settings, outcome: &Result<(), String>) -> (save: bool)
    ensures
        outcome is Ok ==> save && *final(settings) == marked_configured(*old(settings)),
        outcome is Err ==> !save && *final(settings) == *old(settings),
{
    match outcome {
        Ok(()) => {
            settings.gnome_shortcut_configured = true;
            true
        },
        Err(_) => false,
    }
}

} // verus!
