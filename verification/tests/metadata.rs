use radio_slate::ui::metadata::{
    format_metadata, parse_bitrate_from_url, parse_stream_title, StationMetadata,
};

#[test]
fn parses_artist_and_title_metadata() {
    let metadata = parse_stream_title("Boards of Canada - Dayvan Cowboy").unwrap();
    assert_eq!(metadata.artist.as_deref(), Some("Boards of Canada"));
    assert_eq!(metadata.title.as_deref(), Some("Dayvan Cowboy"));
}

#[test]
fn parses_bitrate_from_station_url() {
    assert_eq!(
        parse_bitrate_from_url("http://live-mp3-128.kexp.org/kexp128.mp3"),
        Some(128)
    );
}

#[test]
fn formats_metadata_with_fallback() {
    let unavailable = format_metadata(&Default::default());
    assert_eq!(unavailable, "unavailable");
}

#[test]
fn stream_title_edge_cases() {
    assert_eq!(parse_stream_title("   "), None);
    let bare = parse_stream_title("  Just a title ").unwrap();
    assert_eq!(bare.title.as_deref(), Some("Just a title"));
    assert_eq!(bare.artist, None);
    let split = parse_stream_title("Band -  - Song").unwrap();
    assert_eq!(split.artist.as_deref(), Some("Band"));
    assert_eq!(split.title.as_deref(), Some("- Song"));
    let dangling = parse_stream_title("X - ").unwrap();
    assert_eq!(dangling.title.as_deref(), Some("X -"));
    assert_eq!(dangling.artist, None);
}

#[test]
fn bitrate_takes_last_plausible_run() {
    assert_eq!(parse_bitrate_from_url("http://host.test/320/stream64"), Some(64));
    assert_eq!(parse_bitrate_from_url("http://host.test/96/stream2048"), Some(96));
    assert_eq!(parse_bitrate_from_url("http://host.test/7/x99999999999999999999"), None);
    assert_eq!(parse_bitrate_from_url("http://host.test/0128"), Some(128));
    assert_eq!(parse_bitrate_from_url(""), None);
}

#[test]
fn formats_all_metadata_parts() {
    let m = StationMetadata {
        title: Some("Song".to_string()),
        artist: Some("Band".to_string()),
        bitrate_kbps: Some(128),
    };
    assert_eq!(format_metadata(&m), "title: Song | artist: Band | bitrate: 128 kbps");
    let only_rate = StationMetadata {
        title: None,
        artist: None,
        bitrate_kbps: Some(64),
    };
    assert_eq!(format_metadata(&only_rate), "bitrate: 64 kbps");
}
