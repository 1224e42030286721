//! Station library, playback rules and playlist formats of a desktop radio
//! player, with their contracts proved by Verus.

pub mod application;
pub mod config;
pub mod domain;
pub mod infrastructure;
pub mod text;
pub mod ui;
