//! Backend-side UI strings (tray menu + native dialogs) localized to the
//! user's chosen language. English is the default and the fallback for any
//! unrecognized language code.

use vstd::prelude::*;

verus! {

/// UI language, mirrored from `Settings.language` ("en" | "vi").
#[derive(Clone, Copy, PartialEq, Eq, Debug, Structural)]
pub enum Lang {
    En,
    Vi,
}

/// The variant of a text for a language.
pub open spec fn pick_spec(l: Lang, en: Seq<char>, vi: Seq<char>) -> Seq<char> {
    match l {
        Lang::En => en,
        Lang::Vi => vi,
    }
}

/// The text `Lang::app_title` gives.
pub open spec fn app_title_text(l: Lang) -> Seq<char> {
    pick_spec(l, "Linux Clipboard"@, "Linux Clipboard"@)
}

/// The text `Lang::tray_show` gives.
pub open spec fn tray_show_text(l: Lang) -> Seq<char> {
    pick_spec(l, "Show clipboard"@, "Hiện clipboard"@)
}

/// The text `Lang::tray_settings` gives.
pub open spec fn tray_settings_text(l: Lang) -> Seq<char> {
    pick_spec(l, "Settings"@, "Cài đặt"@)
}

/// The text `Lang::tray_check_updates` gives.
pub open spec fn tray_check_updates_text(l: Lang) -> Seq<char> {
    pick_spec(l, "Check for updates"@, "Kiểm tra cập nhật"@)
}

/// The text `Lang::tray_quit` gives.
pub open spec fn tray_quit_text(l: Lang) -> Seq<char> {
    pick_spec(l, "Quit"@, "Thoát"@)
}

/// The text `Lang::tray_auto_paste_portal_missing` gives.
pub open spec fn tray_auto_paste_portal_missing_text(l: Lang) -> Seq<char> {
    pick_spec(l, "Auto-paste: portal missing ⚠"@, "Auto-paste: thiếu portal ⚠"@)
}

/// The text `Lang::tray_auto_paste_needs_permission` gives.
pub open spec fn tray_auto_paste_needs_permission_text(l: Lang) -> Seq<char> {
    pick_spec(l, "Auto-paste: needs permission ⚠"@, "Auto-paste: cần cấp quyền ⚠"@)
}

/// The text `Lang::tray_auto_paste_on` gives.
pub open spec fn tray_auto_paste_on_text(l: Lang) -> Seq<char> {
    pick_spec(l, "Auto-paste: On ✓"@, "Auto-paste: Bật ✓"@)
}

/// The text `Lang::tray_auto_paste_off` gives.
pub open spec fn tray_auto_paste_off_text(l: Lang) -> Seq<char> {
    pick_spec(l, "Auto-paste: Off"@, "Auto-paste: Tắt"@)
}

/// The text `Lang::portal_missing_title` gives.
pub open spec fn portal_missing_title_text(l: Lang) -> Seq<char> {
    pick_spec(l, "xdg-desktop-portal missing"@, "Thiếu xdg-desktop-portal"@)
}

/// The text `Lang::portal_missing_body` gives.
pub open spec fn portal_missing_body_text(l: Lang) -> Seq<char> {
    pick_spec(l, "This machine has no RemoteDesktop portal, so auto-paste isn't \
             possible on Wayland.\n\n\
             Install the package for your desktop:\n  \
             • GNOME: xdg-desktop-portal-gnome\n  \
             • KDE:   xdg-desktop-portal-kde\n\n\
             For example on Ubuntu/Debian:\n  \
             sudo apt install xdg-desktop-portal-gnome\n\n\
             The content is still copied — you can paste it yourself with Ctrl+V."@, "Máy này chưa có portal RemoteDesktop nên không thể tự động dán trên Wayland.\n\n\
             Hãy cài gói tương ứng với desktop của bạn:\n  \
             • GNOME: xdg-desktop-portal-gnome\n  \
             • KDE:   xdg-desktop-portal-kde\n\n\
             Ví dụ trên Ubuntu/Debian:\n  \
             sudo apt install xdg-desktop-portal-gnome\n\n\
             Nội dung vẫn được copy — bạn có thể tự dán bằng Ctrl+V."@)
}

/// The text `Lang::enable_paste_title` gives.
pub open spec fn enable_paste_title_text(l: Lang) -> Seq<char> {
    pick_spec(l, "Enable auto-paste?"@, "Bật auto-paste?"@)
}

/// The text `Lang::enable_paste_body` gives.
pub open spec fn enable_paste_body_text(l: Lang) -> Seq<char> {
    pick_spec(l, "On Wayland, auto-pasting into other apps needs a one-time Remote \
             Desktop permission.\n\n\
             Enable it now? If you skip, the content is still copied — just \
             paste it yourself with Ctrl+V."@, "Trên Wayland, để tự động dán vào ứng dụng bạn cần cấp quyền Remote \
             Desktop một lần.\n\n\
             Bật ngay? Nếu để sau, nội dung vẫn đã được copy — bạn tự dán bằng \
             Ctrl+V."@)
}

/// The text `Lang::enable_paste_now` gives.
pub open spec fn enable_paste_now_text(l: Lang) -> Seq<char> {
    pick_spec(l, "Enable now"@, "Bật ngay"@)
}

/// The text `Lang::enable_paste_later` gives.
pub open spec fn enable_paste_later_text(l: Lang) -> Seq<char> {
    pick_spec(l, "Later"@, "Để sau"@)
}

/// The text `Lang::copied_title` gives.
pub open spec fn copied_title_text(l: Lang) -> Seq<char> {
    pick_spec(l, "Copied"@, "Đã copy"@)
}

/// The text `Lang::copied_body` gives.
pub open spec fn copied_body_text(l: Lang) -> Seq<char> {
    pick_spec(l, "The content has been copied to the clipboard. You can enable \
             auto-paste later in Settings, or from the system tray menu."@, "Nội dung đã được copy vào clipboard. Bạn có thể bật auto-paste sau \
             này trong Settings, hoặc ở menu khay hệ thống (tray)."@)
}

/// The text `Lang::update_available_title` gives.
pub open spec fn update_available_title_text(l: Lang) -> Seq<char> {
    pick_spec(l, "Update available"@, "Có bản cập nhật"@)
}

/// The text `Lang::update_open` gives.
pub open spec fn update_open_text(l: Lang) -> Seq<char> {
    pick_spec(l, "Open"@, "Mở"@)
}

/// The text `Lang::update_later` gives.
pub open spec fn update_later_text(l: Lang) -> Seq<char> {
    pick_spec(l, "Later"@, "Để sau"@)
}

/// The text `Lang::update_up_to_date_title` gives.
pub open spec fn update_up_to_date_title_text(l: Lang) -> Seq<char> {
    pick_spec(l, "You're up to date"@, "Bạn đang ở bản mới nhất"@)
}

/// The text `Lang::update_error_title` gives.
pub open spec fn update_error_title_text(l: Lang) -> Seq<char> {
    pick_spec(l, "Update check failed"@, "Kiểm tra cập nhật thất bại"@)
}

/// The text `Lang::update_error_body` gives.
pub open spec fn update_error_body_text(l: Lang) -> Seq<char> {
    pick_spec(l, "Couldn't check for updates. Please check your internet connection \
             and try again."@, "Không thể kiểm tra cập nhật. Vui lòng kiểm tra kết nối mạng và thử lại."@)
}

/// The body `Lang::update_available_body` gives for two versions.
pub open spec fn update_available_body_text(l: Lang, latest: Seq<char>, current: Seq<char>) -> Seq<
    char,
> {
    match l {
        Lang::En => "A new version "@ + latest + " is available (you have "@ + current
            + ").\n\nOpen the download page?"@,
        Lang::Vi => "Đã có phiên bản mới "@ + latest + " (bạn đang dùng "@ + current
            + ").\n\nMở trang tải về?"@,
    }
}

/// The body `Lang::update_up_to_date_body` gives for a version.
pub open spec fn update_up_to_date_body_text(l: Lang, current: Seq<char>) -> Seq<char> {
    match l {
        Lang::En => "You're on the latest version ("@ + current + ")."@,
        Lang::Vi => "Bạn đang dùng phiên bản mới nhất ("@ + current + ")."@,
    }
}

impl Lang {
    /// "vi" is Vietnamese; every other code falls back to English.
    pub fn from_code(code: &str) -> (r: Lang)
        ensures
            r == (if code@ == "vi"@ {
                Lang::Vi
            } else {
                Lang::En
            }),
    {
        if crate::text::str_eq(code, "vi") {
            Lang::Vi
        } else {
            Lang::En
        }
    }

    /// Pick the variant for this language (English is the fallback).
    pub fn pick(self, en: &'static str, vi: &'static str) -> (r: &'static str)
        ensures
            r@ == pick_spec(self, en@, vi@),
    {
        match self {
            Lang::En => en,
            Lang::Vi => vi,
        }
    }

    /// The application name shown as the title of native dialogs.
    pub fn app_title(self) -> (r: &'static str)
        ensures
            r@ == app_title_text(self),
    {
        self.pick("Linux Clipboard", "Linux Clipboard")
    }

    pub fn tray_show(self) -> (r: &'static str)
        ensures
            r@ == tray_show_text(self),
    {
        self.pick("Show clipboard", "Hiện clipboard")
    }

    pub fn tray_settings(self) -> (r: &'static str)
        ensures
            r@ == tray_settings_text(self),
    {
        self.pick("Settings", "Cài đặt")
    }

    pub fn tray_check_updates(self) -> (r: &'static str)
        ensures
            r@ == tray_check_updates_text(self),
    {
        self.pick("Check for updates", "Kiểm tra cập nhật")
    }

    pub fn tray_quit(self) -> (r: &'static str)
        ensures
            r@ == tray_quit_text(self),
    {
        self.pick("Quit", "Thoát")
    }

    pub fn tray_auto_paste_portal_missing(self) -> (r: &'static str)
        ensures
            r@ == tray_auto_paste_portal_missing_text(self),
    {
        self.pick("Auto-paste: portal missing ⚠", "Auto-paste: thiếu portal ⚠")
    }

    pub fn tray_auto_paste_needs_permission(self) -> (r: &'static str)
        ensures
            r@ == tray_auto_paste_needs_permission_text(self),
    {
        self.pick("Auto-paste: needs permission ⚠", "Auto-paste: cần cấp quyền ⚠")
    }

    pub fn tray_auto_paste_on(self) -> (r: &'static str)
        ensures
            r@ == tray_auto_paste_on_text(self),
    {
        self.pick("Auto-paste: On ✓", "Auto-paste: Bật ✓")
    }

    pub fn tray_auto_paste_off(self) -> (r: &'static str)
        ensures
            r@ == tray_auto_paste_off_text(self),
    {
        self.pick("Auto-paste: Off", "Auto-paste: Tắt")
    }

    pub fn portal_missing_title(self) -> (r: &'static str)
        ensures
            r@ == portal_missing_title_text(self),
    {
        self.pick("xdg-desktop-portal missing", "Thiếu xdg-desktop-portal")
    }

    pub fn portal_missing_body(self) -> (r: &'static str)
        ensures
            r@ == portal_missing_body_text(self),
    {
        self.pick("This machine has no RemoteDesktop portal, so auto-paste isn't \
             possible on Wayland.\n\n\
             Install the package for your desktop:\n  \
             • GNOME: xdg-desktop-portal-gnome\n  \
             • KDE:   xdg-desktop-portal-kde\n\n\
             For example on Ubuntu/Debian:\n  \
             sudo apt install xdg-desktop-portal-gnome\n\n\
             The content is still copied — you can paste it yourself with Ctrl+V.", "Máy này chưa có portal RemoteDesktop nên không thể tự động dán trên Wayland.\n\n\
             Hãy cài gói tương ứng với desktop của bạn:\n  \
             • GNOME: xdg-desktop-portal-gnome\n  \
             • KDE:   xdg-desktop-portal-kde\n\n\
             Ví dụ trên Ubuntu/Debian:\n  \
             sudo apt install xdg-desktop-portal-gnome\n\n\
             Nội dung vẫn được copy — bạn có thể tự dán bằng Ctrl+V.")
    }

    pub fn enable_paste_title(self) -> (r: &'static str)
        ensures
            r@ == enable_paste_title_text(self),
    {
        self.pick("Enable auto-paste?", "Bật auto-paste?")
    }

    pub fn enable_paste_body(self) -> (r: &'static str)
        ensures
            r@ == enable_paste_body_text(self),
    {
        self.pick("On Wayland, auto-pasting into other apps needs a one-time Remote \
             Desktop permission.\n\n\
             Enable it now? If you skip, the content is still copied — just \
             paste it yourself with Ctrl+V.", "Trên Wayland, để tự động dán vào ứng dụng bạn cần cấp quyền Remote \
             Desktop một lần.\n\n\
             Bật ngay? Nếu để sau, nội dung vẫn đã được copy — bạn tự dán bằng \
             Ctrl+V.")
    }

    pub fn enable_paste_now(self) -> (r: &'static str)
        ensures
            r@ == enable_paste_now_text(self),
    {
        self.pick("Enable now", "Bật ngay")
    }

    pub fn enable_paste_later(self) -> (r: &'static str)
        ensures
            r@ == enable_paste_later_text(self),
    {
        self.pick("Later", "Để sau")
    }

    pub fn copied_title(self) -> (r: &'static str)
        ensures
            r@ == copied_title_text(self),
    {
        self.pick("Copied", "Đã copy")
    }

    pub fn copied_body(self) -> (r: &'static str)
        ensures
            r@ == copied_body_text(self),
    {
        self.pick("The content has been copied to the clipboard. You can enable \
             auto-paste later in Settings, or from the system tray menu.", "Nội dung đã được copy vào clipboard. Bạn có thể bật auto-paste sau \
             này trong Settings, hoặc ở menu khay hệ thống (tray).")
    }

    pub fn update_available_title(self) -> (r: &'static str)
        ensures
            r@ == update_available_title_text(self),
    {
        self.pick("Update available", "Có bản cập nhật")
    }

    pub fn update_open(self) -> (r: &'static str)
        ensures
            r@ == update_open_text(self),
    {
        self.pick("Open", "Mở")
    }

    pub fn update_later(self) -> (r: &'static str)
        ensures
            r@ == update_later_text(self),
    {
        self.pick("Later", "Để sau")
    }

    pub fn update_up_to_date_title(self) -> (r: &'static str)
        ensures
            r@ == update_up_to_date_title_text(self),
    {
        self.pick("You're up to date", "Bạn đang ở bản mới nhất")
    }

    pub fn update_error_title(self) -> (r: &'static str)
        ensures
            r@ == update_error_title_text(self),
    {
        self.pick("Update check failed", "Kiểm tra cập nhật thất bại")
    }

    pub fn update_error_body(self) -> (r: &'static str)
        ensures
            r@ == update_error_body_text(self),
    {
        self.pick("Couldn't check for updates. Please check your internet connection \
             and try again.", "Không thể kiểm tra cập nhật. Vui lòng kiểm tra kết nối mạng và thử lại.")
    }

    /// Body for "a newer version exists" (interpolates both versions).
    pub fn update_available_body(self, latest: &str, current: &str) -> (r: String)
        ensures
            r@ == update_available_body_text(self, latest@, current@),
    {
        match self {
            Lang::En => "A new version ".to_owned().concat(latest).concat(
                " is available (you have ",
            ).concat(current).concat(").\n\nOpen the download page?"),
            Lang::Vi => "Đã có phiên bản mới ".to_owned().concat(latest).concat(
                " (bạn đang dùng ",
            ).concat(current).concat(").\n\nMở trang tải về?"),
        }
    }

    /// Body for "you are on the latest version" (interpolates the version).
    pub fn update_up_to_date_body(self, current: &str) -> (r: String)
        ensures
            r@ == update_up_to_date_body_text(self, current@),
    {
        match self {
            Lang::En => "You're on the latest version (".to_owned().concat(current).concat(")."),
            Lang::Vi => "Bạn đang dùng phiên bản mới nhất (".to_owned().concat(current).concat(
                ").",
            ),
        }
    }
}

} // verus!
