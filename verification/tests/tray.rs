use radio_slate::application::PlaybackService;
use radio_slate::domain::{PlaybackError, PlaybackState, Station, StationId, StationSelection};
use radio_slate::infrastructure::{AudioPlayback, InMemoryStationRepository, MprisCommand};
use radio_slate::ui::tray::{
    toggle_tray_playback, tray_action_for_command, tray_announcement, tray_needs_reset,
    tray_toggle_label, TrayAction, TrayAnnouncement,
};

#[derive(Default)]
struct StubPlayer;

impl AudioPlayback for StubPlayer {
    fn play_station(&self, _station: &Station) -> Result<(), PlaybackError> {
        Ok(())
    }

    fn stop_playback(&self) -> Result<(), PlaybackError> {
        Ok(())
    }
}

#[test]
fn tray_toggle_uses_shared_playback_service_lifecycle() {
    let station = Station::new("Echo", "https://example.test/stream", "news").unwrap();
    let repository = InMemoryStationRepository::with_seed_stations(vec![station]);
    let mut service = PlaybackService::new(repository, StubPlayer);

    let state = toggle_tray_playback(&mut service).unwrap();
    assert_eq!(tray_toggle_label(&state), "Stop KEXP");
    assert!(matches!(state, PlaybackState::Playing(_)));

    let state = toggle_tray_playback(&mut service).unwrap();
    assert_eq!(tray_toggle_label(&state), "Play KEXP");
    assert_eq!(state, PlaybackState::Stopped);
}

#[test]
fn tray_toggle_without_stations_reports_error() {
    let mut service = PlaybackService::new(InMemoryStationRepository::default(), StubPlayer);
    assert_eq!(
        toggle_tray_playback(&mut service).unwrap_err(),
        PlaybackError::NoStationsConfigured
    );
}

#[test]
fn tray_commands_map_to_actions() {
    let playing = PlaybackState::Playing(StationSelection::new(StationId::new("station-x")));
    assert_eq!(
        tray_action_for_command(MprisCommand::Play, &PlaybackState::Stopped),
        TrayAction::Toggle
    );
    assert_eq!(
        tray_action_for_command(MprisCommand::Play, &playing),
        TrayAction::Nothing
    );
    assert_eq!(
        tray_action_for_command(MprisCommand::Pause, &playing),
        TrayAction::Stop
    );
    assert_eq!(
        tray_action_for_command(MprisCommand::Stop, &PlaybackState::Stopped),
        TrayAction::Stop
    );
    assert_eq!(
        tray_action_for_command(MprisCommand::Toggle, &playing),
        TrayAction::Toggle
    );
    assert_eq!(
        tray_action_for_command(MprisCommand::Quit, &playing),
        TrayAction::Quit
    );
}

#[test]
fn tray_announces_stopped_and_now_playing() {
    let sel = StationSelection::new(StationId::new("station-x"));
    assert_eq!(tray_announcement(&PlaybackState::Stopped), TrayAnnouncement::Stopped);
    assert_eq!(
        tray_announcement(&PlaybackState::Buffering(sel.clone())),
        TrayAnnouncement::NowPlaying
    );
    assert_eq!(tray_announcement(&PlaybackState::Playing(sel)), TrayAnnouncement::NowPlaying);
}

#[test]
fn tray_resets_when_the_player_ended() {
    let sel = StationSelection::new(StationId::new("station-x"));
    assert!(tray_needs_reset(&PlaybackState::Buffering(sel.clone()), false));
    assert!(!tray_needs_reset(&PlaybackState::Playing(sel), true));
    assert!(!tray_needs_reset(&PlaybackState::Stopped, false));
}
