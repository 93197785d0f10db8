//! The tray menu's decisions: the auto-paste state it shows, what a click on
//! each item does, what the auto-paste toggle leads to, and the texts of the
//! update-check dialogs. The "Auto-paste" item is a toggle bound to
//! `Settings.auto_paste`; on Wayland turning it on also runs the one-time
//! RemoteDesktop consent flow, and turning it off just stops pasting (the OS
//! grant stays cached so re-enabling is silent). Building the native menu
//! and showing dialogs is left to the caller.

use vstd::prelude::*;
use crate::i18n::{
    Lang, tray_show_text, tray_settings_text, tray_check_updates_text, tray_quit_text,
    tray_auto_paste_portal_missing_text, tray_auto_paste_needs_permission_text,
    tray_auto_paste_on_text, tray_auto_paste_off_text, update_error_title_text,
    update_error_body_text, update_available_title_text, update_available_body_text,
    update_up_to_date_title_text, update_up_to_date_body_text,
};
use crate::models::UpdateCheck;
use crate::text::str_eq;
use crate::updater::{releases_page, spec_releases_page};

verus! {

/// The id of the tray icon.
pub const TRAY_ID: &'static str = "main-tray";

/// The auto-paste state the tray and the Settings UI show.
#[derive(Clone, Copy, PartialEq, Eq, Debug, Structural)]
pub enum PasteState {
    /// Setting on and usable (granted, or X11 where no grant is needed).
    On,
    /// Setting off.
    Off,
    /// Setting on but the Wayland portal permission hasn't been granted yet.
    NeedsPermission,
    /// Setting on but no RemoteDesktop portal backend is installed.
    PortalMissing,
}

/// The state for the setting `auto_paste`, a session whose paste backend is
/// the portal or not, and what the portal probes answered.
pub open spec fn paste_state_spec(
    auto_paste: bool,
    uses_portal: bool,
    portal_available: bool,
    granted: bool,
) -> PasteState {
    if !auto_paste {
        PasteState::Off
    } else if !uses_portal {
        PasteState::On
    } else if !portal_available {
        PasteState::PortalMissing
    } else if !granted {
        PasteState::NeedsPermission
    } else {
        PasteState::On
    }
}

/// The current auto-paste state: off when the setting is off; on when the
/// backend is not the portal (X11 has nothing to grant); otherwise missing
/// when no RemoteDesktop backend is installed, waiting for permission when
/// no grant is held, on when it is.
pub fn paste_state(auto_paste: bool, backend: &str, portal_available: bool, granted: bool) -> (r:
    PasteState)
    ensures
        r == paste_state_spec(auto_paste, backend@ == "portal"@, portal_available, granted),
{
    if !auto_paste {
        return PasteState::Off;
    }
    if !str_eq(backend, "portal") {
        return PasteState::On;
    }
    if !portal_available {
        return PasteState::PortalMissing;
    }
    if !granted {
        PasteState::NeedsPermission
    } else {
        PasteState::On
    }
}

/// The stable name of a state for the Settings UI.
pub open spec fn status_text(s: PasteState) -> Seq<char> {
    match s {
        PasteState::On => "on"@,
        PasteState::Off => "off"@,
        PasteState::NeedsPermission => "needs_permission"@,
        PasteState::PortalMissing => "portal_missing"@,
    }
}

/// "on" | "off" | "needs_permission" | "portal_missing".
pub fn auto_paste_status(s: PasteState) -> (r: &'static str)
    ensures
        r@ == status_text(s),
{
    proof {
        reveal_strlit("on");
        reveal_strlit("off");
        reveal_strlit("needs_permission");
        reveal_strlit("portal_missing");
    }
    match s {
        PasteState::On => "on",
        PasteState::Off => "off",
        PasteState::NeedsPermission => "needs_permission",
        PasteState::PortalMissing => "portal_missing",
    }
}

/// What a click on the auto-paste toggle, or turning the setting on, does.
#[derive(Clone, Copy, PartialEq, Eq, Debug, Structural)]
pub enum ToggleAction {
    /// Warn that no portal backend is installed (nothing to toggle).
    WarnPortalMissing,
    /// Run the consent flow; the setting stays on.
    Grant,
    /// Store the setting with this value.
    SetAutoPaste(bool),
}

/// What a click on the toggle does in a state.
pub open spec fn toggle_spec(s: PasteState) -> ToggleAction {
    match s {
        PasteState::PortalMissing => ToggleAction::WarnPortalMissing,
        PasteState::NeedsPermission => ToggleAction::Grant,
        PasteState::On => ToggleAction::SetAutoPaste(false),
        PasteState::Off => ToggleAction::SetAutoPaste(true),
    }
}

/// A click on the toggle acts on the current state: missing portal warns,
/// missing permission runs the consent flow, on turns the setting off (the
/// OS grant is kept), off turns it on.
pub fn toggle_action(s: PasteState) -> (r: ToggleAction)
    ensures
        r == toggle_spec(s),
{
    match s {
        PasteState::PortalMissing => ToggleAction::WarnPortalMissing,
        PasteState::NeedsPermission => ToggleAction::Grant,
        PasteState::On => ToggleAction::SetAutoPaste(false),
        PasteState::Off => ToggleAction::SetAutoPaste(true),
    }
}

/// The follow-up once the setting was stored.
#[derive(Clone, Copy, PartialEq, Eq, Debug, Structural)]
pub enum FollowUp {
    /// Rebuild the menu.
    Refresh,
    /// Rebuild the menu, then warn that no portal backend is installed.
    RefreshAndWarn,
    /// Run the consent flow (the menu is rebuilt when it ends).
    Grant,
}

/// After storing `enabled`: turning off just rebuilds the menu; turning on
/// acts on the state as re-evaluated with the setting on (`after`).
pub fn after_set_auto_paste(enabled: bool, after: PasteState) -> (r: FollowUp)
    ensures
        !enabled ==> r == FollowUp::Refresh,
        enabled ==> r == match after {
            PasteState::PortalMissing => FollowUp::RefreshAndWarn,
            PasteState::NeedsPermission => FollowUp::Grant,
            _ => FollowUp::Refresh,
        },
{
    if !enabled {
        return FollowUp::Refresh;
    }
    match after {
        PasteState::PortalMissing => FollowUp::RefreshAndWarn,
        PasteState::NeedsPermission => FollowUp::Grant,
        _ => FollowUp::Refresh,
    }
}

/// The label of the auto-paste item for a state.
pub open spec fn toggle_label_text(l: Lang, s: PasteState) -> Seq<char> {
    match s {
        PasteState::PortalMissing => tray_auto_paste_portal_missing_text(l),
        PasteState::NeedsPermission => tray_auto_paste_needs_permission_text(l),
        PasteState::On => tray_auto_paste_on_text(l),
        PasteState::Off => tray_auto_paste_off_text(l),
    }
}

/// The label of the auto-paste item.
pub fn toggle_label(l: Lang, s: PasteState) -> (r: &'static str)
    ensures
        r@ == toggle_label_text(l, s),
{
    match s {
        PasteState::PortalMissing => l.tray_auto_paste_portal_missing(),
        PasteState::NeedsPermission => l.tray_auto_paste_needs_permission(),
        PasteState::On => l.tray_auto_paste_on(),
        PasteState::Off => l.tray_auto_paste_off(),
    }
}

/// The auto-paste item's label says which state it shows: it is that
/// state's text in the menu's language, it ends with the check mark exactly
/// when auto-paste is on, and with the warning sign exactly when the
/// permission or the portal is missing.
pub proof fn law_toggle_label_names_state(l: Lang, s: PasteState)
    ensures
        s is On ==> toggle_label_text(l, s) == tray_auto_paste_on_text(l),
        s is Off ==> toggle_label_text(l, s) == tray_auto_paste_off_text(l),
        s is NeedsPermission ==> toggle_label_text(l, s) == tray_auto_paste_needs_permission_text(
            l,
        ),
        s is PortalMissing ==> toggle_label_text(l, s) == tray_auto_paste_portal_missing_text(l),
        toggle_label_text(l, s).len() > 0,
        toggle_label_text(l, s).last() == '✓' <==> s is On,
        toggle_label_text(l, s).last() == '⚠' <==> (s is NeedsPermission
            || s is PortalMissing),
{
    reveal_strlit("Auto-paste: portal missing ⚠");
    reveal_strlit("Auto-paste: thiếu portal ⚠");
    reveal_strlit("Auto-paste: needs permission ⚠");
    reveal_strlit("Auto-paste: cần cấp quyền ⚠");
    reveal_strlit("Auto-paste: On ✓");
    reveal_strlit("Auto-paste: Bật ✓");
    reveal_strlit("Auto-paste: Off");
    reveal_strlit("Auto-paste: Tắt");
}

/// One menu entry: its id and its label.
pub struct MenuItem {
    pub id: &'static str,
    pub label: &'static str,
}

/// The views of a menu's (id, label) pairs.
pub open spec fn menu_view(items: Seq<MenuItem>) -> Seq<(Seq<char>, Seq<char>)> {
    items.map_values(|m: MenuItem| (m.id@, m.label@))
}

/// The menu: show, settings, the auto-paste toggle (only where auto-paste
/// is possible at all), check for updates, quit.
pub open spec fn menu_spec(l: Lang, can_auto_paste: bool, s: PasteState) -> Seq<
    (Seq<char>, Seq<char>),
> {
    let head = seq![("show"@, tray_show_text(l)), ("settings"@, tray_settings_text(l))];
    let mid = if can_auto_paste {
        head.push(("toggle_paste"@, toggle_label_text(l, s)))
    } else {
        head
    };
    mid.push(("check_updates"@, tray_check_updates_text(l))).push(("quit"@, tray_quit_text(l)))
}

/// The tray menu's items, in order.
pub fn menu_items(l: Lang, can_auto_paste: bool, s: PasteState) -> (r: Vec<MenuItem>)
    ensures
        menu_view(r@) == menu_spec(l, can_auto_paste, s),
{
    proof {
        reveal_strlit("show");
        reveal_strlit("settings");
        reveal_strlit("toggle_paste");
        reveal_strlit("check_updates");
        reveal_strlit("quit");
    }
    let mut items: Vec<MenuItem> = Vec::new();
    items.push(MenuItem { id: "show", label: l.tray_show() });
    items.push(MenuItem { id: "settings", label: l.tray_settings() });
    if can_auto_paste {
        items.push(MenuItem { id: "toggle_paste", label: toggle_label(l, s) });
    }
    items.push(MenuItem { id: "check_updates", label: l.tray_check_updates() });
    items.push(MenuItem { id: "quit", label: l.tray_quit() });
    assert(menu_view(items@) =~= menu_spec(l, can_auto_paste, s));
    items
}

/// What a click on a menu item does.
#[derive(Clone, Copy, PartialEq, Eq, Debug, Structural)]
pub enum MenuAction {
    ShowPanel,
    /// Show the panel first (which resets the view), then ask for settings.
    ShowSettings,
    TogglePaste,
    CheckUpdates,
    Quit,
    Nothing,
}

/// The action for a clicked item id.
pub open spec fn menu_action_spec(id: Seq<char>) -> MenuAction {
    if id == "show"@ {
        MenuAction::ShowPanel
    } else if id == "settings"@ {
        MenuAction::ShowSettings
    } else if id == "toggle_paste"@ {
        MenuAction::TogglePaste
    } else if id == "check_updates"@ {
        MenuAction::CheckUpdates
    } else if id == "quit"@ {
        MenuAction::Quit
    } else {
        MenuAction::Nothing
    }
}

/// The action for a clicked item id.
pub fn menu_action(id: &str) -> (r: MenuAction)
    ensures
        r == menu_action_spec(id@),
        r == (if id@ == "show"@ {
            MenuAction::ShowPanel
        } else if id@ == "settings"@ {
            MenuAction::ShowSettings
        } else if id@ == "toggle_paste"@ {
            MenuAction::TogglePaste
        } else if id@ == "check_updates"@ {
            MenuAction::CheckUpdates
        } else if id@ == "quit"@ {
            MenuAction::Quit
        } else {
            MenuAction::Nothing
        }),
{
    if str_eq(id, "show") {
        MenuAction::ShowPanel
    } else if str_eq(id, "settings") {
        MenuAction::ShowSettings
    } else if str_eq(id, "toggle_paste") {
        MenuAction::TogglePaste
    } else if str_eq(id, "check_updates") {
        MenuAction::CheckUpdates
    } else if str_eq(id, "quit") {
        MenuAction::Quit
    } else {
        MenuAction::Nothing
    }
}

/// A dialog message: the title line, a blank line, the body.
pub open spec fn dialog_text(title: Seq<char>, body: Seq<char>) -> Seq<char> {
    title + "\n\n"@ + body
}

/// Join a dialog's title and body.
pub fn dialog_message(title: &str, body: &str) -> (r: String)
    ensures
        r@ == dialog_text(title@, body@),
{
    title.to_owned().concat("\n\n").concat(body)
}

/// The dialog that answers an update check.
pub enum UpdateDialog {
    /// The check failed.
    Failed { message: String },
    /// A newer release exists: offer to open `url`.
    Offer { message: String, url: String },
    /// Nothing newer.
    UpToDate { message: String },
}

/// The text of an optional string, empty when absent.
pub open spec fn opt_text(o: Option<String>) -> Seq<char> {
    match o {
        Some(s) => s@,
        None => Seq::empty(),
    }
}

/// A failed check gets the error dialog; an available update gets the
/// offer (the release's page, or the latest-release page when the answer
/// named none); otherwise the up-to-date confirmation.
pub fn update_dialog(l: Lang, result: &UpdateCheck) -> (r: UpdateDialog)
    ensures
        result.error is Some ==> (r matches UpdateDialog::Failed { message } && message@
            == dialog_text(update_error_title_text(l), update_error_body_text(l))),
        result.error is None && result.update_available ==> (r matches UpdateDialog::Offer {
            message,
            url,
        } && message@ == dialog_text(
            update_available_title_text(l),
            update_available_body_text(
                l,
                opt_text(result.latest_version),
                result.current_version@,
            ),
        ) && url@ == (match result.release_url {
            Some(u) => u@,
            None => spec_releases_page(),
        })),
        result.error is None && !result.update_available ==> (r matches UpdateDialog::UpToDate {
            message,
        } && message@ == dialog_text(
            update_up_to_date_title_text(l),
            update_up_to_date_body_text(l, result.current_version@),
        )),
{
    if result.error.is_some() {
        let message = dialog_message(l.update_error_title(), l.update_error_body());
        return UpdateDialog::Failed { message };
    }
    if result.update_available {
        let latest: &str = match &result.latest_version {
            Some(v) => v.as_str(),
            None => "",
        };
        proof {
            reveal_strlit("");
        }
        let body = l.update_available_body(latest, result.current_version.as_str());
        let message = dialog_message(l.update_available_title(), body.as_str());
        let url = match &result.release_url {
            Some(u) => u.clone(),
            None => releases_page(),
        };
        UpdateDialog::Offer { message, url }
    } else {
        let body = l.update_up_to_date_body(result.current_version.as_str());
        let message = dialog_message(l.update_up_to_date_title(), body.as_str());
        UpdateDialog::UpToDate { message }
    }
}


/// Turning auto-paste off keeps the OS grant, so turning it on again is
/// silent: with the grant held, re-enabling needs no consent flow and no
/// warning, and the state is on again.
pub proof fn law_reenable_is_silent(uses_portal: bool, portal_available: bool)
    ensures
        paste_state_spec(false, uses_portal, portal_available, true) == PasteState::Off,
        paste_state_spec(true, uses_portal, portal_available, true) == PasteState::On
            || paste_state_spec(true, uses_portal, portal_available, true)
            == PasteState::PortalMissing,
        !uses_portal || portal_available ==> paste_state_spec(
            true,
            uses_portal,
            portal_available,
            true,
        ) == PasteState::On,
{
}

/// Where nothing needs granting (X11, or the grant held), the toggle flips
/// the setting: from off it stores on, and from the resulting state it
/// stores off again.
pub proof fn law_toggle_flips(uses_portal: bool, portal_available: bool, granted: bool)
    requires
        !uses_portal || (portal_available && granted),
    ensures
        ({
            let off = paste_state_spec(false, uses_portal, portal_available, granted);
            let on = paste_state_spec(true, uses_portal, portal_available, granted);
            &&& off == PasteState::Off
            &&& on == PasteState::On
            &&& toggle_spec(off) == ToggleAction::SetAutoPaste(true)
            &&& toggle_spec(on) == ToggleAction::SetAutoPaste(false)
        }),
{
}

/// Every entry of the tray menu does what it is there for: show, settings,
/// the auto-paste toggle (present exactly where auto-paste is possible, and
/// labelled with the current state), check for updates and quit, in that
/// order; no entry is dead.
pub proof fn law_menu_entries_act(l: Lang, can_auto_paste: bool, s: PasteState)
    ensures
        ({
            let m = menu_spec(l, can_auto_paste, s);
            let acts = m.map_values(|e: (Seq<char>, Seq<char>)| menu_action_spec(e.0));
            &&& can_auto_paste ==> acts == seq![
                MenuAction::ShowPanel,
                MenuAction::ShowSettings,
                MenuAction::TogglePaste,
                MenuAction::CheckUpdates,
                MenuAction::Quit,
            ]
            &&& can_auto_paste ==> m[2].1 == toggle_label_text(l, s)
            &&& !can_auto_paste ==> acts == seq![
                MenuAction::ShowPanel,
                MenuAction::ShowSettings,
                MenuAction::CheckUpdates,
                MenuAction::Quit,
            ]
        }),
{
    reveal_strlit("show");
    reveal_strlit("settings");
    reveal_strlit("toggle_paste");
    reveal_strlit("check_updates");
    reveal_strlit("quit");
    let m = menu_spec(l, can_auto_paste, s);
    let acts = m.map_values(|e: (Seq<char>, Seq<char>)| menu_action_spec(e.0));
    assert("show"@.len() == 4 && "settings"@.len() == 8 && "toggle_paste"@.len() == 12);
    assert("check_updates"@.len() == 13 && "quit"@.len() == 4 && "quit"@[0] != "show"@[0]);
    if can_auto_paste {
        assert(acts =~= seq![
            MenuAction::ShowPanel,
            MenuAction::ShowSettings,
            MenuAction::TogglePaste,
            MenuAction::CheckUpdates,
            MenuAction::Quit,
        ]);
    } else {
        assert(acts =~= seq![
            MenuAction::ShowPanel,
            MenuAction::ShowSettings,
            MenuAction::CheckUpdates,
            MenuAction::Quit,
        ]);
    }
}

} // verus!
