use vstd::prelude::*;

pub mod text;
pub mod models;
pub mod i18n;
pub mod db;
pub mod db_laws;
pub mod gnome;
pub mod gnome_laws;
pub mod updater;
pub mod util;
pub mod session;
pub mod state;
pub mod images;
pub mod clipboard;
pub mod tray;
pub mod window;
pub mod portal;
pub mod commands;
pub mod paste;
pub mod clipboard_laws;
pub mod startup;
pub mod hotkey;

verus! {
} // verus!
