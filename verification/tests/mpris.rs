use radio_slate::domain::{PlaybackState, StationId, StationSelection};
use radio_slate::infrastructure::{metadata_entries, MetadataValue, MprisSharedState};

fn has_key(entries: &[(String, MetadataValue)], key: &str) -> bool {
    entries.iter().any(|(k, _)| k == key)
}

#[test]
fn shared_state_maps_playing_domain_state() {
    let s = MprisSharedState::from_playback_state(
        PlaybackState::Playing(StationSelection::new(StationId::new("kexp"))),
        "KEXP",
        "http://kexp.test/stream",
    );
    assert_eq!(s.playback_status, "Playing");
    assert_eq!(s.station_name, "KEXP");
}

#[test]
fn shared_state_maps_stopped_domain_state() {
    let s = MprisSharedState::from_playback_state(PlaybackState::Stopped, "", "");
    assert_eq!(s.playback_status, "Stopped");
}

#[test]
fn shared_state_maps_buffering_to_playing() {
    let s = MprisSharedState::from_playback_state(
        PlaybackState::Buffering(StationSelection::new(StationId::new("kexp"))),
        "KEXP",
        "http://kexp.test/stream",
    );
    assert_eq!(s.playback_status, "Playing");
}

#[test]
fn metadata_always_contains_trackid() {
    let m = metadata_entries("KEXP", "http://kexp.test/stream");
    assert!(has_key(&m, "mpris:trackid"), "mpris:trackid is required by spec");
}

#[test]
fn metadata_includes_title_when_present() {
    let m = metadata_entries("KEXP", "");
    assert!(has_key(&m, "xesam:title"));
}

#[test]
fn metadata_excludes_title_when_empty() {
    let m = metadata_entries("", "");
    assert!(!has_key(&m, "xesam:title"));
}

#[test]
fn metadata_includes_url_when_present() {
    let m = metadata_entries("", "http://kexp.test/stream");
    assert!(has_key(&m, "xesam:url"));
}

#[test]
fn shared_state_starts_stopped() {
    let s = MprisSharedState::default();
    assert_eq!(s.playback_status, "Stopped");
    assert_eq!(s.station_name, "");
}

#[test]
fn shared_state_transitions_to_playing_and_back() {
    let mut s = MprisSharedState::default();
    s.set_playing("KEXP", "http://live-mp3-128.kexp.org/kexp128.mp3");
    assert_eq!(s.playback_status, "Playing");
    assert_eq!(s.station_name, "KEXP");
    assert_eq!(s.station_url, "http://live-mp3-128.kexp.org/kexp128.mp3");
    s.set_stopped();
    assert_eq!(s.playback_status, "Stopped");
    assert_eq!(s.station_name, "KEXP");
}

#[test]
fn metadata_entries_are_exact() {
    let m = metadata_entries("KEXP", "http://kexp.test/stream");
    assert_eq!(
        m,
        vec![
            (
                "mpris:trackid".to_string(),
                MetadataValue::ObjectPath("/org/radio_slate/track/current".to_string())
            ),
            (
                "xesam:title".to_string(),
                MetadataValue::Text("KEXP".to_string())
            ),
            (
                "xesam:url".to_string(),
                MetadataValue::Text("http://kexp.test/stream".to_string())
            ),
        ]
    );
}

#[test]
fn handle_starts_stopped() {
    let s = MprisSharedState::default();
    assert_eq!(s.playback_status, "Stopped");
}

#[test]
fn handle_transitions_to_playing() {
    let mut s = MprisSharedState::default();
    s.set_playing("KEXP", "http://live-mp3-128.kexp.org/kexp128.mp3");
    assert_eq!(s.playback_status, "Playing");
    assert_eq!(s.station_name, "KEXP");
    assert_eq!(s.station_url, "http://live-mp3-128.kexp.org/kexp128.mp3");
}

#[test]
fn handle_transitions_back_to_stopped() {
    let mut s = MprisSharedState::default();
    s.set_playing("KEXP", "http://live-mp3-128.kexp.org/kexp128.mp3");
    s.set_stopped();
    assert_eq!(s.playback_status, "Stopped");
}
