//! The user-facing rules: stream metadata, keyboard shortcuts, the tray's
//! decisions and the command line's messages.

pub mod cli;
pub mod metadata;
pub mod tray;
pub mod shortcuts;
