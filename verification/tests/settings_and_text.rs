use linux_clipboard::gnome::{
    build_list, configure, ensure, ensure_slot, parse_list, remove, remove_slot, slot, slot_present,
    to_gnome_accel,
};
use linux_clipboard::i18n::Lang;
use linux_clipboard::models::{default_language, OpResult, Settings, UpdateCheck};
use linux_clipboard::session::detect_from;
use linux_clipboard::updater::{
    check_outcome, is_newer, ReleaseAnswer, latest_release_api_url, no_release_check, parts, release_check, release_target,
    releases_page,
};
use linux_clipboard::util::{hash_bytes, hash_text, now_ms, to_hex_lower};

const SLOT: &str = "/org/gnome/settings-daemon/plugins/media-keys/custom-keybindings/linux-clipboard/";

#[test]
fn gnome_accel_translation() {
    assert_eq!(to_gnome_accel("Ctrl+Alt+V"), "<Control><Alt>v");
    assert_eq!(to_gnome_accel("Alt+V"), "<Alt>v");
    assert_eq!(to_gnome_accel("CommandOrControl + Shift + F12"), "<Control><Shift>f12");
    assert_eq!(to_gnome_accel("Super+Meta+space"), "<Super><Super>space");
    assert_eq!(to_gnome_accel("Option+Win+a+b"), "<Alt><Super>b");
    assert_eq!(to_gnome_accel("Ctrl+"), "<Control>");
    assert_eq!(to_gnome_accel(""), "");
}

#[test]
fn gsettings_list_parsing() {
    assert_eq!(parse_list("@as []"), Vec::<String>::new());
    assert_eq!(parse_list("[]"), Vec::<String>::new());
    assert_eq!(parse_list("['/a/', '/b/']"), vec!["/a/", "/b/"]);
    assert_eq!(parse_list("  [\"/a/\"]  "), vec!["/a/"]);
    assert_eq!(build_list(&Vec::new()), "[]");
    assert_eq!(build_list(&vec!["/a/".to_string(), "/b/".to_string()]), "['/a/', '/b/']");
    let items = vec!["/x/".to_string(), "/y/".to_string()];
    assert_eq!(parse_list(&build_list(&items)), items);
}

#[test]
fn slot_ensured_once_and_removed() {
    assert_eq!(slot(), SLOT);
    let one = ensure_slot("@as []");
    assert_eq!(one, format!("['{SLOT}']"));
    assert_eq!(ensure_slot(&one), one);
    let two = ensure_slot("['/a/']");
    assert_eq!(two, format!("['/a/', '{SLOT}']"));
    assert!(slot_present(&two));
    assert!(!slot_present("['/a/']"));
    assert_eq!(remove_slot(&two), "['/a/']");
    assert_eq!(remove_slot(&one), "[]");
}

#[test]
fn gsettings_calls() {
    let calls = configure("@as []", "/usr/bin/app --toggle", "<Alt>v");
    let path = format!("org.gnome.settings-daemon.plugins.media-keys.custom-keybinding:{SLOT}");
    assert_eq!(calls.len(), 4);
    assert_eq!(
        calls[0],
        vec!["set", "org.gnome.settings-daemon.plugins.media-keys", "custom-keybindings", &format!("['{SLOT}']")]
    );
    assert_eq!(calls[1], vec!["set", &path, "name", "Linux Clipboard Toggle"]);
    assert_eq!(calls[2], vec!["set", &path, "command", "/usr/bin/app --toggle"]);
    assert_eq!(calls[3], vec!["set", &path, "binding", "<Alt>v"]);
    let calls = remove(&format!("['/a/', '{SLOT}']"));
    assert_eq!(
        calls[0],
        vec!["set", "org.gnome.settings-daemon.plugins.media-keys", "custom-keybindings", "['/a/']"]
    );
    assert_eq!(calls[1], vec!["reset-recursively", &path]);
    assert!(ensure(&format!("['{SLOT}']"), "cmd", "<Alt>v").is_none());
    assert_eq!(ensure("[]", "cmd", "<Alt>v").unwrap().len(), 4);
}

#[test]
fn version_comparison() {
    assert!(is_newer("0.2.0", "0.1.9"));
    assert!(!is_newer("0.1.9", "0.2.0"));
    assert!(!is_newer("1.0", "1.0.0"));
    assert!(!is_newer("1.0.0", "1.0"));
    assert!(is_newer("1.0.1", "1.0"));
    assert!(is_newer("0.10.0", "0.9.0"));
    assert!(!is_newer("x.1", "0.1"));
    assert!(!is_newer("0.1.0", "0.1.0"));
    assert_eq!(parts("1. 2.x"), vec![1, 2, 0]);
    assert_eq!(parts("+5"), vec![5]);
    assert_eq!(parts("18446744073709551615.18446744073709551616"), vec![u64::MAX, 0]);
    assert_eq!(parts(""), vec![0]);
    assert!(is_newer("3.0", "2.9") && is_newer("2.9", "2.8.7") && is_newer("3.0", "2.8.7"));
}

#[test]
fn release_answers() {
    assert_eq!(releases_page(), "https://github.com/datluong2409/linux-clipboard/releases/latest");
    assert_eq!(
        latest_release_api_url(),
        "https://api.github.com/repos/datluong2409/linux-clipboard/releases/latest"
    );
    let r = release_check("0.1.0", Some("v0.2.0 "), Some("https://x/rel"));
    assert!(r.update_available);
    assert_eq!(r.latest_version.as_deref(), Some("0.2.0"));
    assert_eq!(r.release_url.as_deref(), Some("https://x/rel"));
    assert!(r.error.is_none());
    let r = release_check("0.2.0", Some("v0.2.0"), None);
    assert!(!r.update_available);
    assert_eq!(r.release_url, Some(releases_page()));
    let r = release_check("0.2.0", None, None);
    assert!(!r.update_available);
    assert!(r.latest_version.is_none());
    let r = no_release_check("0.2.0");
    assert!(!r.update_available && r.release_url.is_none() && r.error.is_none());
    let f = UpdateCheck::failed("0.2.0".to_string(), "network");
    assert_eq!(f.error.as_deref(), Some("network"));
    assert_eq!(release_target(None), releases_page());
    assert_eq!(release_target(Some("u".to_string())), "u");
}

#[test]
fn sha256_hex() {
    assert_eq!(hash_text(""), "e3b0c44298fc1c149afbf4c8996fb92427ae41e4649b934ca495991b7852b855");
    assert_eq!(hash_text("abc"), "ba7816bf8f01cfea414140de5dae2223b00361a396177a9cb410ff61f20015ad");
    assert_eq!(hash_bytes(b"abc"), hash_text("abc"));
    assert_eq!(to_hex_lower(&[0, 15, 16, 255]), "000f10ff");
    assert!(now_ms() > 1_600_000_000_000);
}

#[test]
fn session_detection() {
    let s = detect_from(Some("x11"), false, false, Some("ubuntu:GNOME"));
    assert_eq!(s.kind, "x11");
    assert!(s.is_gnome && s.can_global_shortcut && s.can_auto_paste);
    assert_eq!(s.hotkey_backend, "gnome");
    assert_eq!(s.auto_paste_backend, "enigo");
    let s = detect_from(Some("wayland"), true, true, Some("KDE"));
    assert_eq!(s.kind, "wayland");
    assert!(!s.is_gnome && !s.can_global_shortcut && s.can_auto_paste);
    assert_eq!(s.hotkey_backend, "none");
    assert_eq!(s.auto_paste_backend, "portal");
    let s = detect_from(Some("tty"), false, true, None);
    assert_eq!(s.kind, "x11");
    assert_eq!(s.hotkey_backend, "global-shortcut");
    let s = detect_from(None, true, true, None);
    assert_eq!(s.kind, "wayland");
    let s = detect_from(None, false, false, None);
    assert_eq!(s.kind, "unknown");
    assert!(!s.can_auto_paste);
    assert_eq!(s.auto_paste_backend, "none");
}

#[test]
fn settings_defaults() {
    let s = Settings::default();
    assert_eq!(s.hotkey, "Alt+V");
    assert!(s.auto_paste && s.capture_images);
    assert_eq!(s.history_cap, 25);
    assert_eq!(s.max_image_bytes, 5 * 1024 * 1024);
    assert_eq!(s.position_mode, "cursor");
    assert_eq!(s.theme, "system");
    assert!(!s.gnome_shortcut_configured && !s.first_run_done);
    assert_eq!(s.language, "en");
    assert_eq!(default_language(), "en");
    let c = s.copy();
    assert_eq!(c.hotkey, s.hotkey);
    let ok = OpResult::ok();
    assert!(ok.ok && ok.reason.is_none());
    let e = OpResult::err("not_found");
    assert!(!e.ok);
    assert_eq!(e.reason.as_deref(), Some("not_found"));
}

#[test]
fn languages() {
    assert_eq!(Lang::from_code("vi"), Lang::Vi);
    assert_eq!(Lang::from_code("en"), Lang::En);
    assert_eq!(Lang::from_code("fr"), Lang::En);
    assert_eq!(Lang::En.tray_show(), "Show clipboard");
    assert_eq!(Lang::Vi.tray_settings(), "Cài đặt");
    assert_eq!(
        Lang::En.update_available_body("0.2.0", "0.1.0"),
        "A new version 0.2.0 is available (you have 0.1.0).\n\nOpen the download page?"
    );
    assert_eq!(Lang::En.update_up_to_date_body("0.1.0"), "You're on the latest version (0.1.0).");
    assert_eq!(Lang::Vi.app_title(), "Linux Clipboard");
}

#[test]
fn update_check_outcomes() {
    let r = check_outcome("0.1.0", ReleaseAnswer::Release { tag: Some("v0.3.0"), html_url: None });
    assert!(r.update_available);
    assert_eq!(r.latest_version.as_deref(), Some("0.3.0"));
    assert_eq!(r.release_url, Some(releases_page()));
    let r = check_outcome("0.1.0", ReleaseAnswer::Unreadable);
    assert_eq!(r.error.as_deref(), Some("parse"));
    assert!(!r.update_available);
    let r = check_outcome("0.1.0", ReleaseAnswer::Unreachable);
    assert_eq!(r.error.as_deref(), Some("network"));
    let r = check_outcome("0.1.0", ReleaseAnswer::NotFound);
    assert!(r.error.is_none() && !r.update_available && r.release_url.is_none());
    assert_eq!(r.current_version, "0.1.0");
}
