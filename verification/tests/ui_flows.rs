use linux_clipboard::commands::{
    apply_hotkey, argv_has_toggle, get_toggle_command, gnome_hotkey_created, init_hotkey, paste_item, set_hotkey,
    settings_effects, toggle_command, ClipWrite, HotkeyPlan, StartupHotkey,
};
use linux_clipboard::db::{HistoryStore, NewClip};
use linux_clipboard::hotkey::{HotkeyBinding, RebindEnd, RebindStart};
use linux_clipboard::i18n::Lang;
use linux_clipboard::models::{Settings, SessionInfo, UpdateCheck};
use linux_clipboard::paste::{paste_route, PasteRoute};
use linux_clipboard::tray::{
    after_set_auto_paste, auto_paste_status, dialog_message, menu_action, menu_items, paste_state,
    toggle_action, toggle_label, update_dialog, FollowUp, MenuAction, PasteState, ToggleAction,
    UpdateDialog,
};
use linux_clipboard::window::{panel_placement, Placement, Rect};

const SLOT: &str = "/org/gnome/settings-daemon/plugins/media-keys/custom-keybindings/linux-clipboard/";

fn session(kind: &str, backend: &str, can: bool) -> SessionInfo {
    SessionInfo {
        kind: kind.to_string(),
        is_gnome: false,
        can_global_shortcut: kind == "x11",
        hotkey_backend: "none".to_string(),
        can_auto_paste: can,
        auto_paste_backend: backend.to_string(),
    }
}

fn store_with_text_and_image() -> HistoryStore {
    let mut s = HistoryStore::new();
    s.insert(
        &NewClip {
            kind: "text",
            content: Some("hello"),
            html: None,
            image_path: None,
            thumb_path: None,
            width: None,
            height: None,
            byte_size: Some(5),
            hash: "h1",
        },
        10,
    )
    .unwrap();
    s.insert(
        &NewClip {
            kind: "image",
            content: None,
            html: None,
            image_path: Some("/i/a.png"),
            thumb_path: Some("/i/a.thumb.png"),
            width: Some(1),
            height: Some(1),
            byte_size: Some(70),
            hash: "h2",
        },
        20,
    )
    .unwrap();
    s
}

#[test]
fn paste_state_table() {
    assert_eq!(paste_state(false, "portal", false, false), PasteState::Off);
    assert_eq!(paste_state(true, "enigo", false, false), PasteState::On);
    assert_eq!(paste_state(true, "portal", false, true), PasteState::PortalMissing);
    assert_eq!(paste_state(true, "portal", true, false), PasteState::NeedsPermission);
    assert_eq!(paste_state(true, "portal", true, true), PasteState::On);
    assert_eq!(auto_paste_status(PasteState::NeedsPermission), "needs_permission");
    assert_eq!(auto_paste_status(PasteState::PortalMissing), "portal_missing");
    assert_eq!(auto_paste_status(PasteState::On), "on");
    assert_eq!(auto_paste_status(PasteState::Off), "off");
}

#[test]
fn toggle_and_follow_up() {
    assert_eq!(toggle_action(PasteState::PortalMissing), ToggleAction::WarnPortalMissing);
    assert_eq!(toggle_action(PasteState::NeedsPermission), ToggleAction::Grant);
    assert_eq!(toggle_action(PasteState::On), ToggleAction::SetAutoPaste(false));
    assert_eq!(toggle_action(PasteState::Off), ToggleAction::SetAutoPaste(true));
    assert_eq!(after_set_auto_paste(false, PasteState::NeedsPermission), FollowUp::Refresh);
    assert_eq!(after_set_auto_paste(true, PasteState::PortalMissing), FollowUp::RefreshAndWarn);
    assert_eq!(after_set_auto_paste(true, PasteState::NeedsPermission), FollowUp::Grant);
    assert_eq!(after_set_auto_paste(true, PasteState::On), FollowUp::Refresh);
    // Off then on again with the grant kept: silent.
    let after = paste_state(true, "portal", true, true);
    assert_eq!(after_set_auto_paste(true, after), FollowUp::Refresh);
}

#[test]
fn tray_menu() {
    let items = menu_items(Lang::En, true, PasteState::NeedsPermission);
    let ids: Vec<&str> = items.iter().map(|m| m.id).collect();
    assert_eq!(ids, vec!["show", "settings", "toggle_paste", "check_updates", "quit"]);
    assert_eq!(items[2].label, toggle_label(Lang::En, PasteState::NeedsPermission));
    assert_eq!(items[0].label, "Show clipboard");
    let items = menu_items(Lang::Vi, false, PasteState::On);
    let ids: Vec<&str> = items.iter().map(|m| m.id).collect();
    assert_eq!(ids, vec!["show", "settings", "check_updates", "quit"]);
    assert_eq!(menu_action("settings"), MenuAction::ShowSettings);
    assert_eq!(menu_action("toggle_paste"), MenuAction::TogglePaste);
    assert_eq!(menu_action("quit"), MenuAction::Quit);
    assert_eq!(menu_action("nope"), MenuAction::Nothing);
}

#[test]
fn update_dialogs() {
    let ok = UpdateCheck {
        current_version: "0.1.0".into(),
        latest_version: Some("0.2.0".into()),
        update_available: true,
        release_url: None,
        error: None,
    };
    match update_dialog(Lang::En, &ok) {
        UpdateDialog::Offer { message, url } => {
            assert!(message.starts_with(Lang::En.update_available_title()));
            assert!(message.ends_with(&Lang::En.update_available_body("0.2.0", "0.1.0")));
            assert_eq!(url, "https://github.com/datluong2409/linux-clipboard/releases/latest");
        }
        _ => panic!("expected an offer"),
    }
    let failed = UpdateCheck::failed("0.1.0".into(), "network");
    match update_dialog(Lang::En, &failed) {
        UpdateDialog::Failed { message } => assert_eq!(
            message,
            dialog_message(Lang::En.update_error_title(), Lang::En.update_error_body())
        ),
        _ => panic!("expected the error dialog"),
    }
    let same = UpdateCheck { update_available: false, ..ok };
    match update_dialog(Lang::Vi, &same) {
        UpdateDialog::UpToDate { message } => {
            assert!(message.ends_with(&Lang::Vi.update_up_to_date_body("0.1.0")))
        }
        _ => panic!("expected the up-to-date dialog"),
    }
    assert_eq!(dialog_message("T", "B"), "T\n\nB");
}

#[test]
fn placement_near_cursor_and_clamped() {
    let mon = Rect { x: 0, y: 0, width: 1920, height: 1080 };
    let right = Rect { x: 1920, y: 0, width: 1280, height: 1024 };
    let mons = vec![mon, right];
    assert_eq!(panel_placement("center", "x11", Some((10, 10)), None, &mons, None), Placement::Center);
    assert_eq!(panel_placement("cursor", "wayland", Some((10, 10)), None, &mons, None), Placement::Center);
    assert_eq!(panel_placement("cursor", "x11", None, None, &mons, None), Placement::Center);
    assert_eq!(
        panel_placement("cursor", "x11", Some((100, 100)), Some((380, 520)), &mons, None),
        Placement::At(108, 108)
    );
    // Too close to the right / bottom edge: flip before the cursor.
    assert_eq!(
        panel_placement("cursor", "x11", Some((1900, 1000)), Some((380, 520)), &mons, None),
        Placement::At(1900 - 380 - 8, 1000 - 520 - 8)
    );
    // On the second monitor.
    assert_eq!(
        panel_placement("cursor", "x11", Some((1930, 10)), Some((380, 520)), &mons, None),
        Placement::At(1938, 18)
    );
    // No window size: the fallback size is used.
    assert_eq!(
        panel_placement("cursor", "x11", Some((1900, 10)), None, &mons, None),
        Placement::At(1900 - 460 - 8, 18)
    );
    // Cursor outside every monitor and no current one: just offset.
    assert_eq!(
        panel_placement("cursor", "x11", Some((-50, -50)), None, &mons, None),
        Placement::At(-42, -42)
    );
    // A monitor smaller than the panel pins it to the near edge.
    let tiny = vec![Rect { x: 0, y: 0, width: 100, height: 100 }];
    assert_eq!(
        panel_placement("cursor", "x11", Some((50, 50)), Some((380, 520)), &tiny, None),
        Placement::At(0, 0)
    );
    // Falls back to the window's current monitor.
    assert_eq!(
        panel_placement("cursor", "x11", Some((5000, 5000)), Some((380, 520)), &mons, Some(mon)),
        Placement::At(1920 - 380, 1080 - 520)
    );
}

#[test]
fn paste_copy_only_when_auto_paste_off() {
    let mut s = store_with_text_and_image();
    let mut shown = false;
    let plan = paste_item(&mut s, 1, 30, false, &session("x11", "enigo", true), false, &mut shown);
    assert!(plan.found && !plan.auto_paste && !plan.prompt);
    assert!(matches!(plan.write, ClipWrite::Text(ref t) if t == "hello"));
    assert!(plan.result.ok);
    assert_eq!(plan.result.reason.as_deref(), Some("copied"));
    assert_eq!(s.get(1).unwrap().last_used_at, 30);
}

#[test]
fn paste_auto_on_x11() {
    let mut s = store_with_text_and_image();
    let mut shown = false;
    let plan = paste_item(&mut s, 2, 30, true, &session("x11", "enigo", true), false, &mut shown);
    assert!(plan.auto_paste && !plan.prompt);
    assert!(matches!(plan.write, ClipWrite::Image(ref p) if p == "/i/a.png"));
    assert!(plan.result.ok && plan.result.reason.is_none());
}

#[test]
fn paste_prompts_once_on_wayland_without_grant() {
    let mut s = store_with_text_and_image();
    let mut shown = false;
    let wl = session("wayland", "portal", true);
    let first = paste_item(&mut s, 1, 30, true, &wl, false, &mut shown);
    assert!(first.prompt && !first.auto_paste);
    assert_eq!(first.result.reason.as_deref(), Some("copied"));
    assert!(shown);
    let second = paste_item(&mut s, 1, 31, true, &wl, false, &mut shown);
    assert!(!second.prompt && !second.auto_paste);
    let granted = paste_item(&mut s, 1, 32, true, &wl, true, &mut shown);
    assert!(granted.auto_paste);
}

#[test]
fn paste_unknown_id() {
    let mut s = store_with_text_and_image();
    let mut shown = false;
    let plan = paste_item(&mut s, 99, 30, true, &session("x11", "enigo", true), false, &mut shown);
    assert!(!plan.found && !plan.auto_paste);
    assert!(!plan.result.ok);
    assert_eq!(plan.result.reason.as_deref(), Some("not_found"));
    assert_eq!(s.get(1).unwrap().last_used_at, 10);
}

#[test]
fn settings_changes() {
    let old = Settings::default();
    let mut new = old.copy();
    assert_eq!(settings_effects(&old, &new).rebind_hotkey, false);
    new.hotkey = "Ctrl+Alt+V".into();
    new.language = "vi".into();
    let e = settings_effects(&old, &new);
    assert!(e.rebind_hotkey && e.refresh_tray);
}

#[test]
fn hotkey_outcomes() {
    let mut s = Settings::default();
    let (r, save) = set_hotkey(&mut s, "gnome", "Ctrl+Alt+V", Ok(()));
    assert!(r.ok && save);
    assert_eq!(s.hotkey, "Ctrl+Alt+V");
    assert!(s.gnome_shortcut_configured);
    let mut s = Settings::default();
    let (r, save) = set_hotkey(&mut s, "none", "Alt+C", Err("no_hotkey_backend".into()));
    assert!(!r.ok && save);
    assert_eq!(r.reason.as_deref(), Some("no_hotkey_backend"));
    assert_eq!(s.hotkey, "Alt+C");
    let mut s = Settings::default();
    let (r, save) = set_hotkey(&mut s, "global-shortcut", "Bad", Err("invalid".into()));
    assert!(!r.ok && !save);
    assert_eq!(s.hotkey, "Alt+V");
}

#[test]
fn hotkey_plans() {
    match apply_hotkey("gnome", "/usr/bin/app", "[]", "Ctrl+Alt+V") {
        HotkeyPlan::Gnome(calls) => {
            assert_eq!(calls[2][3], "/usr/bin/app --toggle");
            assert_eq!(calls[3][3], "<Control><Alt>v");
        }
        _ => panic!("expected gsettings calls"),
    }
    assert!(matches!(apply_hotkey("gnome", "", "[]", "Alt+V"), HotkeyPlan::Fail(ref e) if e == "no_exe"));
    assert!(matches!(apply_hotkey("global-shortcut", "", "[]", "Alt+V"), HotkeyPlan::GlobalShortcut));
    assert!(matches!(apply_hotkey("none", "x", "[]", "Alt+V"), HotkeyPlan::Fail(ref e) if e == "no_hotkey_backend"));
    let present = format!("['{SLOT}']");
    let mut st = Settings::default();
    assert!(matches!(init_hotkey(&mut st, "gnome", "/usr/bin/app", &present), StartupHotkey::GnomeKept));
    assert!(st.gnome_shortcut_configured);
    assert_eq!(st.hotkey, "Alt+V");
    let mut st = Settings::default();
    match init_hotkey(&mut st, "gnome", "/usr/bin/app", "@as []") {
        StartupHotkey::GnomeCreate(calls) => {
            assert_eq!(calls.len(), 4);
            assert_eq!(calls[3][3], "<Alt>v");
        }
        _ => panic!("expected the create calls"),
    }
    assert!(!st.gnome_shortcut_configured);
    assert!(!gnome_hotkey_created(&mut st, &Err("gsettings set failed".into())));
    assert!(!st.gnome_shortcut_configured);
    assert!(gnome_hotkey_created(&mut st, &Ok(())));
    assert!(st.gnome_shortcut_configured);
    let mut st = Settings::default();
    assert!(matches!(init_hotkey(&mut st, "gnome", "", "[]"), StartupHotkey::NoCommand(_)));
    assert!(matches!(init_hotkey(&mut st, "global-shortcut", "x", "[]"), StartupHotkey::GlobalShortcut));
    assert!(matches!(init_hotkey(&mut st, "none", "x", "[]"), StartupHotkey::Manual));
    assert!(!st.gnome_shortcut_configured);
}

#[test]
fn toggle_commands() {
    assert_eq!(toggle_command("/opt/app").unwrap(), "/opt/app --toggle");
    assert_eq!(toggle_command("").unwrap_err(), "no_exe");
    assert_eq!(get_toggle_command(""), "linux-clipboard --toggle");
    assert_eq!(get_toggle_command("/opt/app"), "/opt/app --toggle");
    assert!(argv_has_toggle(&vec!["app".to_string(), "--toggle".to_string()]));
    assert!(!argv_has_toggle(&vec!["app".to_string(), "--toggle=1".to_string()]));
    assert!(!argv_has_toggle(&Vec::new()));
}

#[test]
fn paste_routes() {
    assert_eq!(paste_route("enigo"), PasteRoute::Enigo);
    assert_eq!(paste_route("portal"), PasteRoute::Portal);
    assert_eq!(paste_route("ydotool"), PasteRoute::Nothing);
}

#[test]
fn toggle_flips_where_nothing_needs_granting() {
    let off = paste_state(false, "enigo", false, false);
    assert_eq!(toggle_action(off), ToggleAction::SetAutoPaste(true));
    let on = paste_state(true, "enigo", false, false);
    assert_eq!(toggle_action(on), ToggleAction::SetAutoPaste(false));
    let on_granted = paste_state(true, "portal", true, true);
    assert_eq!(toggle_action(on_granted), ToggleAction::SetAutoPaste(false));
}

#[test]
fn rebind_rolls_back() {
    let mut b = HotkeyBinding::new();
    assert!(matches!(b.begin(false), RebindStart::Refuse(ref e) if e == "invalid"));
    assert!(matches!(b.begin(true), RebindStart::Proceed { unregister: None }));
    assert!(matches!(b.finish("Alt+V", Ok(())), RebindEnd::Done));
    assert_eq!(b.current.as_deref(), Some("Alt+V"));
    assert!(matches!(b.begin(true), RebindStart::Proceed { unregister: Some(ref o) } if o == "Alt+V"));
    match b.finish("Ctrl+X", Err("taken".into())) {
        RebindEnd::Failed { restore, error } => {
            assert_eq!(restore.as_deref(), Some("Alt+V"));
            assert_eq!(error, "taken");
        }
        RebindEnd::Done => panic!("expected a failure"),
    }
    assert_eq!(b.current.as_deref(), Some("Alt+V"));
}
