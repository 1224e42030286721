use std::sync::Mutex;

use radio_slate::application::PlaybackService;
use radio_slate::domain::{
    PlaybackError, PlaybackState, Station, StationId, StationRepository, StationSelection,
};
use radio_slate::infrastructure::{AudioPlayback, BufferedSink, InMemoryStationRepository};

#[derive(Default)]
struct StubRepo {
    stations: Vec<Station>,
}

impl StationRepository for StubRepo {
    fn list(&self) -> Vec<Station> {
        self.stations.clone()
    }

    fn get(&self, id: &StationId) -> Option<Station> {
        self.stations
            .iter()
            .find(|station| station.id == *id)
            .cloned()
    }
}

#[derive(Default)]
struct StubPlayer {
    plays: Mutex<usize>,
    stops: Mutex<usize>,
}

impl AudioPlayback for StubPlayer {
    fn play_station(&self, _station: &Station) -> Result<(), PlaybackError> {
        *self.plays.lock().unwrap() += 1;
        Ok(())
    }

    fn stop_playback(&self) -> Result<(), PlaybackError> {
        *self.stops.lock().unwrap() += 1;
        Ok(())
    }
}

struct FailingPlayer;

impl AudioPlayback for FailingPlayer {
    fn play_station(&self, _station: &Station) -> Result<(), PlaybackError> {
        Err(PlaybackError::PlayerUnavailable("no player".to_string()))
    }

    fn stop_playback(&self) -> Result<(), PlaybackError> {
        Err(PlaybackError::PlayerUnavailable("cannot stop".to_string()))
    }
}

#[test]
fn playback_service_lists_available_stations() {
    let station = Station::new("Echo", "https://example.test/stream", "news").unwrap();
    let repo = StubRepo {
        stations: vec![station.clone()],
    };
    let service = PlaybackService::new(repo, StubPlayer::default());

    assert_eq!(service.list_stations().len(), 1);
    assert_eq!(service.preview_station(&station.id), Some(station));
}

#[test]
fn playback_service_tracks_selection_and_state() {
    let station = Station::new("Echo", "https://example.test/stream", "news").unwrap();
    let repo = StubRepo {
        stations: vec![station.clone()],
    };
    let mut service = PlaybackService::new(repo, StubPlayer::default());

    let selection = service.select_station(&station.id).unwrap();
    let state = service.play_selected().unwrap();

    assert_eq!(selection.station_id(), &station.id);
    assert_eq!(state, PlaybackState::Playing(selection));
    assert_eq!(service.status_label(), "playing");
}

#[test]
fn playback_service_toggle_stops_playback() {
    let station = Station::new("Echo", "https://example.test/stream", "news").unwrap();
    let repo = StubRepo {
        stations: vec![station.clone()],
    };
    let mut service = PlaybackService::new(repo, StubPlayer::default());

    service.select_station(&station.id).unwrap();
    service.play_selected().unwrap();
    let state = service.toggle_selected().unwrap();

    assert_eq!(state, PlaybackState::Stopped);
}

#[test]
fn playback_service_reports_missing_station_errors() {
    let mut service = PlaybackService::new(StubRepo::default(), StubPlayer::default());
    let err = service.select_default_station().unwrap_err();

    assert_eq!(err, PlaybackError::NoStationsConfigured);
}

#[test]
fn emit_snapshot_writes_json_to_sink() {
    let station = Station::new("Echo", "https://example.test/stream", "news").unwrap();
    let repo = StubRepo {
        stations: vec![station.clone()],
    };
    let service = PlaybackService::new(repo, StubPlayer::default());
    let mut sink = BufferedSink::new();

    service
        .emit_snapshot(PlaybackState::Stopped, None, &mut sink)
        .unwrap();

    assert_eq!(sink.lines.len(), 1);
    let line = &sink.lines[0];
    assert!(line.contains("\"state\""));
    assert!(line.contains("stopped"));
    assert!(line.contains("stations_available"));
}

#[test]
fn emit_snapshot_includes_station_count() {
    let stations = vec![
        Station::new("A", "https://a.test/stream", "rock").unwrap(),
        Station::new("B", "https://b.test/stream", "jazz").unwrap(),
    ];
    let repo = StubRepo {
        stations: stations.clone(),
    };
    let service = PlaybackService::new(repo, StubPlayer::default());
    let mut sink = BufferedSink::new();

    service
        .emit_snapshot(
            PlaybackState::Playing(StationSelection::new(stations[0].id.clone())),
            None,
            &mut sink,
        )
        .unwrap();

    let parsed: serde_json::Value = serde_json::from_str(&sink.lines[0]).unwrap();
    assert_eq!(parsed["stations_available"], 2);
    assert_eq!(parsed["state"], "playing");
}

#[test]
fn playback_service_transitions_through_play_and_stop() {
    let station = Station::new("Echo", "https://example.test/stream", "news").unwrap();
    let repository = InMemoryStationRepository::with_seed_stations(vec![station.clone()]);
    let player = StubPlayer::default();
    let mut service = PlaybackService::new(repository, player);

    service.select_station(&station.id).unwrap();
    let playing = service.play_selected().unwrap();
    let stopped = service.stop().unwrap();

    assert!(matches!(playing, PlaybackState::Playing(_)));
    assert_eq!(stopped, PlaybackState::Stopped);
}

#[test]
fn select_unknown_station_keeps_previous_selection() {
    let station = Station::new("Echo", "https://example.test/stream", "news").unwrap();
    let repo = InMemoryStationRepository::with_seed_stations(vec![station.clone()]);
    let mut service = PlaybackService::new(repo, StubPlayer::default());
    let selection = service.select_station(&station.id).unwrap();

    let err = service
        .select_station(&StationId::new("station-missing"))
        .unwrap_err();

    assert_eq!(
        err,
        PlaybackError::StationNotFound(StationId::new("station-missing"))
    );
    assert_eq!(service.selected_station(), Some(selection));
}

#[test]
fn play_without_selection_reports_no_stations() {
    let mut service = PlaybackService::new(StubRepo::default(), StubPlayer::default());
    assert_eq!(
        service.play_selected().unwrap_err(),
        PlaybackError::NoStationsConfigured
    );
    assert_eq!(service.playback_state(), PlaybackState::Stopped);
}

#[test]
fn failed_player_leaves_state_buffering() {
    let station = Station::new("Echo", "https://example.test/stream", "news").unwrap();
    let repo = InMemoryStationRepository::with_seed_stations(vec![station.clone()]);
    let mut service = PlaybackService::new(repo, FailingPlayer);
    let selection = service.select_default_station().unwrap();

    let err = service.play_selected().unwrap_err();

    assert_eq!(err, PlaybackError::PlayerUnavailable("no player".to_string()));
    assert_eq!(service.playback_state(), PlaybackState::Buffering(selection));
    assert_eq!(service.status_label(), "buffering");
}

#[test]
fn failed_stop_keeps_state() {
    let mut service = PlaybackService::new(StubRepo::default(), FailingPlayer);
    assert!(service.stop().is_err());
    assert_eq!(service.playback_state(), PlaybackState::Stopped);
}

#[test]
fn select_default_picks_first_station() {
    let stations = vec![
        Station::new("A", "https://a.test/stream", "rock").unwrap(),
        Station::new("B", "https://b.test/stream", "jazz").unwrap(),
    ];
    let repo = InMemoryStationRepository::with_seed_stations(stations.clone());
    let mut service = PlaybackService::new(repo, StubPlayer::default());
    let selection = service.select_default_station().unwrap();
    assert_eq!(selection.station_id(), &stations[0].id);
}

#[test]
fn emit_snapshot_with_station_is_exact() {
    let station = Station::new("Echo", "https://example.test/stream", "news").unwrap();
    let repo = InMemoryStationRepository::with_seed_stations(vec![station.clone()]);
    let service = PlaybackService::new(repo, StubPlayer::default());
    let mut sink = BufferedSink::new();
    service
        .emit_snapshot(PlaybackState::Stopped, Some(station), &mut sink)
        .unwrap();
    assert_eq!(
        sink.lines,
        vec![
            "{\"state\":\"stopped\",\"station\":{\"id\":\"station-echo\",\"name\":\"Echo\",\"url\":\"https://example.test/stream\",\"genre\":\"news\"},\"stations_available\":1}"
        ]
    );
}
