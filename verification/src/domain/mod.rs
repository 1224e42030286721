//! Station models and playback rules.

pub mod repository;
pub mod station;

pub use repository::{MutableStationRepository, StationRepository, StoreError};
pub use station::{PlaybackError, PlaybackState, Station, StationId, StationSelection, StationView};
