# linux_clipboard

The logic of a Linux clipboard manager (history panel, pins, paste-back with
auto-paste on X11 and Wayland), as a verified library, with the desktop app
around it.

- `src/` — the library, every function proved against its contract (the
  clock reading `util::now_ms` has none: nothing holds of every reading):
  - `db` — the history table: insert, dedup lookup by content hash, bump to
    top, pin, delete, clear, the cap that evicts the oldest unpinned rows,
    and the listings in display order (pinned first, then most recently
    used); `db_laws` states what the operations keep.
  - `clipboard` — recording copied text and images into the table;
    `clipboard_laws`.
  - `state` — change detection and suppression of our own clipboard writes.
  - `commands` — what the frontend's commands do (listing, search, paste,
    hotkey).
  - `tray`, `window`, `paste`, `portal` — the tray menu's decisions, panel
    placement, the auto-paste route, and the Wayland portal session's
    decisions (keycodes, key frames, device tracking, token cache).
  - `gnome`, `gnome_laws` — GNOME custom keybinding editing; `hotkey` —
    rebinding the global shortcut with rollback.
  - `startup` — the startup reconcile of the history with the image files.
  - `updater`, `session`, `images`, `i18n`, `models`, `text`, `util`.
- `tests/` — tests on concrete values.
- `app/` — Tauri setup, SQLite persistence, the clipboard, the window and
  the D-Bus / libei plumbing (including the xkbcommon keymap and keysym
  lookups, whose values it hands to the library); the decisions it acts on
  are the library's.
