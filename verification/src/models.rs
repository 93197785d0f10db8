//! The records shared with the frontend: clipboard entries, user settings,
//! session capabilities and small operation results.

use vstd::prelude::*;

verus! {

/// One clipboard entry. Text lives in `content` (with optional rich-text
/// `html`); images live on disk and are referenced by `image_path` /
/// `thumb_path`. `kind` is `"text"` or `"image"`.
#[derive(Debug)]
pub struct Clip {
    pub id: i64,
    pub kind: String,
    pub content: Option<String>,
    pub html: Option<String>,
    pub image_path: Option<String>,
    pub thumb_path: Option<String>,
    pub width: Option<i64>,
    pub height: Option<i64>,
    pub byte_size: Option<i64>,
    pub pinned: bool,
    pub created_at: i64,
    pub last_used_at: i64,
}

impl Clip {
    /// A field-for-field copy.
    pub fn copy(&self) -> (r: Clip)
        ensures
            r == *self,
    {
        Clip {
            id: self.id,
            kind: self.kind.clone(),
            content: crate::text::copy_opt_string(&self.content),
            html: crate::text::copy_opt_string(&self.html),
            image_path: crate::text::copy_opt_string(&self.image_path),
            thumb_path: crate::text::copy_opt_string(&self.thumb_path),
            width: self.width,
            height: self.height,
            byte_size: self.byte_size,
            pinned: self.pinned,
            created_at: self.created_at,
            last_used_at: self.last_used_at,
        }
    }
}

/// The UI language code that settings fall back to.
pub open spec fn spec_default_language() -> Seq<char> {
    "en"@
}

/// `"en"`: the language a settings file without one is read with.
pub fn default_language() -> (r: String)
    ensures
        r@ == "en"@,
{
    "en".to_owned()
}

/// Persisted user settings.
#[derive(Debug)]
pub struct Settings {
    /// Accelerator string, e.g. "Alt+V".
    pub hotkey: String,
    pub auto_paste: bool,
    pub history_cap: u32,
    pub max_image_bytes: u64,
    /// Whether copied images are recorded at all.
    pub capture_images: bool,
    /// "cursor" (X11) | "center" (Wayland / forced).
    pub position_mode: String,
    /// "system" | "light" | "dark".
    pub theme: String,
    pub gnome_shortcut_configured: bool,
    pub first_run_done: bool,
    /// UI language: "en" | "vi".
    pub language: String,
}

impl Settings {
    /// A field-for-field copy.
    pub fn copy(&self) -> (r: Settings)
        ensures
            r == *self,
    {
        Settings {
            hotkey: self.hotkey.clone(),
            auto_paste: self.auto_paste,
            history_cap: self.history_cap,
            max_image_bytes: self.max_image_bytes,
            capture_images: self.capture_images,
            position_mode: self.position_mode.clone(),
            theme: self.theme.clone(),
            gnome_shortcut_configured: self.gnome_shortcut_configured,
            first_run_done: self.first_run_done,
            language: self.language.clone(),
        }
    }
}

/// The factory settings.
pub open spec fn is_default_settings(s: Settings) -> bool {
    &&& s.hotkey@ == "Alt+V"@
    &&& s.auto_paste
    &&& s.history_cap == 25
    &&& s.max_image_bytes == 5 * 1024 * 1024
    &&& s.capture_images
    &&& s.position_mode@ == "cursor"@
    &&& s.theme@ == "system"@
    &&& !s.gnome_shortcut_configured
    &&& !s.first_run_done
    &&& s.language@ == spec_default_language()
}

impl Default for Settings {
    fn default() -> (r: Settings)
        ensures
            is_default_settings(r),
    {
        Settings {
            hotkey: "Alt+V".to_owned(),
            auto_paste: true,
            history_cap: 25,
            max_image_bytes: 5 * 1024 * 1024,
            capture_images: true,
            position_mode: "cursor".to_owned(),
            theme: "system".to_owned(),
            gnome_shortcut_configured: false,
            first_run_done: false,
            language: default_language(),
        }
    }
}

/// Session / capability info for the Settings UI.
#[derive(Debug)]
pub struct SessionInfo {
    /// "x11" | "wayland" | "unknown"
    pub kind: String,
    pub is_gnome: bool,
    pub can_global_shortcut: bool,
    /// "gnome" | "global-shortcut" | "none"
    pub hotkey_backend: String,
    pub can_auto_paste: bool,
    /// "enigo" (X11) | "portal" (Wayland libei) | "none"
    pub auto_paste_backend: String,
}

impl SessionInfo {
    /// A field-for-field copy.
    pub fn copy(&self) -> (r: SessionInfo)
        ensures
            r == *self,
    {
        SessionInfo {
            kind: self.kind.clone(),
            is_gnome: self.is_gnome,
            can_global_shortcut: self.can_global_shortcut,
            hotkey_backend: self.hotkey_backend.clone(),
            can_auto_paste: self.can_auto_paste,
            auto_paste_backend: self.auto_paste_backend.clone(),
        }
    }
}

/// Generic result for operations the frontend reacts to.
#[derive(Debug)]
pub struct OpResult {
    pub ok: bool,
    pub reason: Option<String>,
}

impl OpResult {
    /// Success with no reason.
    pub fn ok() -> (r: OpResult)
        ensures
            r.ok,
            r.reason is None,
    {
        OpResult { ok: true, reason: None }
    }

    /// Failure with the given reason.
    pub fn err(reason: &str) -> (r: OpResult)
        ensures
            !r.ok,
            r.reason matches Some(s) && s@ == reason@,
    {
        OpResult { ok: false, reason: Some(reason.to_owned()) }
    }

    /// Success carrying a note (such as `"copied"`).
    pub fn ok_with(reason: &str) -> (r: OpResult)
        ensures
            r.ok,
            r.reason matches Some(s) && s@ == reason@,
    {
        OpResult { ok: true, reason: Some(reason.to_owned()) }
    }
}

/// Outcome of asking whether a newer release exists.
#[derive(Debug)]
pub struct UpdateCheck {
    pub current_version: String,
    pub latest_version: Option<String>,
    pub update_available: bool,
    pub release_url: Option<String>,
    /// "network" | "parse" | "internal" when the check failed.
    pub error: Option<String>,
}

impl UpdateCheck {
    /// A failed check with the given error code.
    pub fn failed(current: String, code: &str) -> (r: UpdateCheck)
        ensures
            r.current_version == current,
            r.latest_version is None,
            !r.update_available,
            r.release_url is None,
            r.error matches Some(e) && e@ == code@,
    {
        UpdateCheck {
            current_version: current,
            latest_version: None,
            update_available: false,
            release_url: None,
            error: Some(code.to_owned()),
        }
    }
}

} // verus!
