//! Browsing and editing a store of encrypted password entries through an
//! external line selector.
//!
//! The library holds the logic of a session, every function of it verified:
//! the entry document model with its text format and field mutations
//! (`pass`), the selector protocol with its keybinding table and exit-status
//! decoding (`rofi`), the menu state machine (`menu`), the walk that lists the
//! store's entries (`store`), one-time password formatting (`otp`) and the
//! resolution of the session's settings (`cli`). Its callers run the
//! processes, read the file system and talk to the desktop, and hand the
//! library plain values.
pub mod cli;
pub mod error;
pub mod otp;
pub mod text;
pub mod pass;
pub mod rofi;
pub mod menu;
pub mod store;
