//! Core of a global-hotkey daemon: it tracks which keys are currently held,
//! renders the held set into a canonical combo identifier, looks the
//! identifier up in a keymap, and decides per input event whether the event
//! is suppressed (a hotkey fired) or passes through to the rest of the
//! system. All I/O — the OS input hook, the screenshot and OCR helpers, the
//! clipboard, the config file — lives outside this crate; the host feeds
//! events in and carries the returned decisions out.

pub mod action;
pub mod combo;
pub mod config;
pub mod dispatch;
pub mod keymap;
pub mod keys;
pub mod paths;
pub mod strutil;
