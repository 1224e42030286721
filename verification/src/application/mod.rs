//! Playback orchestration and service behaviour.

pub mod playback_service;
pub mod playback_snapshot;

pub use playback_service::PlaybackService;
pub use playback_snapshot::PlaybackSnapshot;
