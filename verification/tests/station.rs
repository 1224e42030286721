use radio_slate::domain::{PlaybackError, PlaybackState, Station, StationId, StationSelection};

#[test]
fn station_rejects_invalid_input() {
    assert!(Station::new("", "https://example.test/stream", "music").is_err());
}

#[test]
fn station_accepts_valid_http_stream() {
    let station = Station::new("Echo", "https://example.test/stream", "news").unwrap();
    assert_eq!(station.genre, "news");
    assert_eq!(station.url, "https://example.test/stream");
}

#[test]
fn station_id_display_matches_inner_value() {
    let id = StationId::new("station-echo");
    assert_eq!(id.to_string(), "station-echo");
}

#[test]
fn station_id_derived_from_name() {
    let station = Station::new("My Jazz", "https://example.test/stream", "jazz").unwrap();
    assert_eq!(station.id.to_string(), "station-my-jazz");
}

#[test]
fn station_rejects_non_http_url() {
    assert!(Station::new("Bad", "ftp://example.test/stream", "rock").is_err());
}

#[test]
fn playback_state_label_matches_variant() {
    let selection = StationSelection::new(StationId::new("station-echo"));
    assert_eq!(PlaybackState::Stopped.status_label(), "stopped");
    assert_eq!(
        PlaybackState::Buffering(selection.clone()).status_label(),
        "buffering"
    );
    assert_eq!(PlaybackState::Playing(selection).status_label(), "playing");
}

#[test]
fn station_fields_are_trimmed() {
    let station = Station::new("  Night Owl \t", " http://owl.test/live\n", " ambient ").unwrap();
    assert_eq!(station.name, "Night Owl");
    assert_eq!(station.url, "http://owl.test/live");
    assert_eq!(station.genre, "ambient");
    assert_eq!(station.id.as_str(), "station-night-owl");
}

#[test]
fn station_rejects_blank_genre_with_message() {
    let err = Station::new("Echo", "https://example.test/stream", "   ").unwrap_err();
    assert_eq!(err, "station name, url, and genre must all be set");
}

#[test]
fn station_rejects_scheme_with_message() {
    let err = Station::new("Echo", "example.test/stream", "news").unwrap_err();
    assert_eq!(err, "station url must use http or https");
}

#[test]
fn station_id_lowers_only_ascii_capitals() {
    let station = Station::new("ÄBC Radio", "http://abc.test/", "talk").unwrap();
    assert_eq!(station.id.as_str(), "station-Äbc-radio");
}

#[test]
fn station_new_is_idempotent_on_its_fields() {
    let first = Station::new(" Echo FM ", " https://echo.test/live ", " news ").unwrap();
    let again = Station::new(&first.name, &first.url, &first.genre).unwrap();
    assert_eq!(first, again);
}

#[test]
fn playback_error_messages() {
    assert_eq!(
        PlaybackError::NoStationsConfigured.message(),
        "no stations configured"
    );
    assert_eq!(
        PlaybackError::StationNotFound(StationId::new("station-x")).message(),
        "station not found: station-x"
    );
    assert_eq!(
        PlaybackError::PlayerUnavailable("boom".to_string()).message(),
        "boom"
    );
}
