//! Libraries, playlist formats and the adapters' pure parts.

pub mod audio_player;
pub mod import_export;
pub mod in_memory_store;
pub mod json;
pub mod json_store;
pub mod mpris;
pub mod notifications;
pub mod output;

pub use audio_player::{AudioPlayback, HttpAudioPlayer, LaunchStep, Player};
pub use import_export::{
    export_content, export_format_for_extension, export_to_json, export_to_m3u,
    import_format_for_extension, parse_m3u, parse_pls, url_to_name, ExportFormat, ImportFormat,
    TransferError,
};
pub use in_memory_store::InMemoryStationRepository;
pub use json_store::{JsonStationRepository, Persistence, StoredDocument, STORE_VERSION};
pub use mpris::{metadata_entries, MetadataValue, MprisCommand, MprisSharedState};
pub use notifications::now_playing_body;
pub use output::{BufferedSink, OutputError, OutputSink};
