use linux_clipboard::portal::{
    accept_cached_token, after_session_flow, ctrl_v_frames, is_granted, join_path, key_events,
    key_stroke, portal_error_message, resolve_keycode, token_path, ChordKeysyms, DeviceTracker,
    EiEventKind, EventOutcome, FlowStep, KeyDir, KeyError, KeyEvent, KeySyms, KeymapTable,
};

// Keysyms as xkbcommon names them (its keysym table).
const XK_V: u32 = 0x0076;
const XK_CAPITAL_V: u32 = 0x0056;
const XK_SHIFT_L: u32 = 0xffe1;
const XK_CONTROL_L: u32 = 0xffe3;

const CHORD: ChordKeysyms = ChordKeysyms { control: XK_CONTROL_L, v: XK_V, shift: XK_SHIFT_L };

fn key(level0: &[u32], level1: &[u32]) -> KeySyms {
    KeySyms { level0: level0.to_vec(), level1: level1.to_vec() }
}

/// xkb keycodes from 8: evdev 0 is empty, 1 = Shift_L, 2 = v / V, 3 = Control_L.
fn table() -> KeymapTable {
    KeymapTable {
        min_keycode: 8,
        keys: vec![
            key(&[], &[]),
            key(&[XK_SHIFT_L], &[]),
            key(&[XK_V], &[XK_CAPITAL_V]),
            key(&[XK_CONTROL_L], &[]),
        ],
    }
}

fn ev(keycode: u32, pressed: bool) -> KeyEvent {
    KeyEvent { keycode, pressed }
}

#[test]
fn resolve_keysym_finds_first_key_and_level() {
    let t = table();
    assert_eq!(resolve_keycode(&t, XK_V), Some((2, false)));
    assert_eq!(resolve_keycode(&t, XK_CAPITAL_V), Some((2, true)));
    assert_eq!(resolve_keycode(&t, XK_CONTROL_L), Some((3, false)));
    assert_eq!(resolve_keycode(&t, 0x1234), None);
    assert_eq!(resolve_keycode(&t, 0), None);
}

#[test]
fn resolve_keysym_saturates_low_keycodes() {
    let t = KeymapTable { min_keycode: 3, keys: vec![key(&[XK_V], &[])] };
    assert_eq!(resolve_keycode(&t, XK_V), Some((0, false)));
}

#[test]
fn key_events_wrap_shift_around_the_key() {
    assert_eq!(key_events(KeyDir::Press, 5, false, Some(1)), vec![ev(5, true)]);
    assert_eq!(key_events(KeyDir::Press, 5, true, Some(1)), vec![ev(1, true), ev(5, true)]);
    assert_eq!(key_events(KeyDir::Release, 5, true, Some(1)), vec![ev(5, false), ev(1, false)]);
    assert_eq!(
        key_events(KeyDir::PressRelease, 5, true, Some(1)),
        vec![ev(1, true), ev(5, true), ev(5, false), ev(1, false)]
    );
    assert_eq!(key_events(KeyDir::PressRelease, 5, true, None), vec![ev(5, true), ev(5, false)]);
}

#[test]
fn key_stroke_errors() {
    let t = table();
    match key_stroke(None, "v", XK_V, XK_SHIFT_L, KeyDir::Press) {
        Err(e) => assert_eq!(e.message(), "no keymap received from portal"),
        Ok(_) => panic!("expected an error"),
    }
    match key_stroke(Some(&t), "NoSuchKeysym", 0, XK_SHIFT_L, KeyDir::Press) {
        Err(e) => assert_eq!(e.message(), "keysym 'NoSuchKeysym' not found in server keymap"),
        Ok(_) => panic!("expected an error"),
    }
    assert_eq!(
        key_stroke(Some(&t), "V", XK_CAPITAL_V, XK_SHIFT_L, KeyDir::PressRelease).unwrap(),
        vec![ev(1, true), ev(2, true), ev(2, false), ev(1, false)]
    );
}

#[test]
fn ctrl_v_chord() {
    let t = table();
    let (frames, err) = ctrl_v_frames(Some(&t), CHORD);
    assert!(err.is_none());
    assert_eq!(frames, vec![vec![ev(3, true)], vec![ev(2, true), ev(2, false)], vec![ev(3, false)]]);

    let no_v = KeymapTable { min_keycode: 8, keys: vec![key(&[XK_CONTROL_L], &[])] };
    let (frames, err) = ctrl_v_frames(Some(&no_v), CHORD);
    assert_eq!(frames, vec![vec![ev(0, true)]]);
    assert!(matches!(err, Some(KeyError::NotFound(ref k)) if k == "v"));

    let (frames, err) = ctrl_v_frames(None, CHORD);
    assert!(frames.is_empty());
    assert!(matches!(err, Some(KeyError::NoKeymap)));
}

#[test]
fn tracker_follows_the_keyboard() {
    let mut t = DeviceTracker::new();
    let none = EventOutcome { bind_keyboard: false, load_keymap: false, ready: false };
    assert_eq!(t.handle(&EiEventKind::DeviceResumed), none);
    assert_eq!(
        t.handle(&EiEventKind::SeatAdded),
        EventOutcome { bind_keyboard: true, load_keymap: false, ready: false }
    );
    assert_eq!(t.handle(&EiEventKind::DeviceAdded { device: 7, keyboard: false }), none);
    assert_eq!(t.keyboard, None);
    assert_eq!(
        t.handle(&EiEventKind::DeviceAdded { device: 9, keyboard: true }),
        EventOutcome { bind_keyboard: false, load_keymap: true, ready: false }
    );
    assert_eq!(
        t.handle(&EiEventKind::DeviceResumed),
        EventOutcome { bind_keyboard: false, load_keymap: false, ready: true }
    );
    assert_eq!(t.handle(&EiEventKind::DeviceRemoved { device: 7 }), none);
    assert_eq!(t.keyboard, Some(9));
    assert_eq!(t.handle(&EiEventKind::DeviceRemoved { device: 9 }), none);
    assert_eq!(t.keyboard, None);
    assert_eq!(t.handle(&EiEventKind::Other), none);
}

#[test]
fn token_path_prefers_absolute_state_home() {
    assert_eq!(
        token_path(Some("/x/state"), Some("/home/u")).as_deref(),
        Some("/x/state/linux-clipboard/portal.token")
    );
    assert_eq!(
        token_path(Some("rel/state"), Some("/home/u")).as_deref(),
        Some("/home/u/.local/state/linux-clipboard/portal.token")
    );
    assert_eq!(
        token_path(None, Some("/home/u/")).as_deref(),
        Some("/home/u/.local/state/linux-clipboard/portal.token")
    );
    assert_eq!(token_path(Some("rel"), None), None);
    assert_eq!(token_path(None, None), None);
    assert_eq!(join_path("", "a"), "a");
    assert_eq!(join_path("/", "a"), "/a");
}

#[test]
fn cached_token_schema() {
    assert_eq!(accept_cached_token(1, "tok".to_string()).as_deref(), Some("tok"));
    assert_eq!(accept_cached_token(2, "tok".to_string()), None);
}

#[test]
fn consent_flow_retries_once_without_token() {
    assert_eq!(after_session_flow(true, true, false), FlowStep::Proceed);
    assert_eq!(after_session_flow(false, true, false), FlowStep::RetryWithoutToken);
    assert_eq!(after_session_flow(false, true, true), FlowStep::CloseAndFail);
    assert_eq!(after_session_flow(false, false, false), FlowStep::CloseAndFail);
}

#[test]
fn granted_when_live_or_cached() {
    assert!(is_granted(true, false));
    assert!(is_granted(false, true));
    assert!(!is_granted(false, false));
}

#[test]
fn portal_error_explains_backends() {
    assert_eq!(
        portal_error_message("boom"),
        "RemoteDesktop portal error: boom\nThe compositor may not expose \
         org.freedesktop.portal.RemoteDesktop. Fix:\n  GNOME: install xdg-desktop-portal-gnome\n  \
         KDE:   install xdg-desktop-portal-kde"
    );
}
