//! Decision logic behind a macOS menu-bar integration for a terminal emulator:
//! bookmark lists, context-menu layout, hotkey bindings, theme selection and
//! path display. Every function here is pure; the host performs the native
//! calls and hands their results in as plain values.

pub mod activation_guard;
pub mod bookmarks;
pub mod config;
pub mod hotkey;
pub mod menu;
pub mod path_util;
pub mod popup_border;
pub mod recorder;
pub mod text;
pub mod theme;
pub mod window;
