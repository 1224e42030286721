//! The tray's decisions: what a click or a media-player command does, and
//! what the toggle item reads.
use vstd::prelude::*;

use crate::application::playback_service::PlaybackService;
use crate::domain::repository::StationRepository;
use crate::domain::station::{PlaybackError, PlaybackState, Station, StationSelection};
use crate::infrastructure::audio_player::AudioPlayback;
use crate::infrastructure::mpris::MprisCommand;

verus! {

/// The toggle item's label while stopped.
pub const PLAY_LABEL: &'static str = "Play KEXP";

/// The toggle item's label while playing or buffering.
pub const STOP_LABEL: &'static str = "Stop KEXP";

/// The label of the toggle item for `state`.
pub open spec fn toggle_label(state: PlaybackState) -> Seq<char> {
    match state {
        PlaybackState::Stopped => "Play KEXP"@,
        _ => "Stop KEXP"@,
    }
}

/// The label the toggle item shows in `state`.
pub fn tray_toggle_label(state: &PlaybackState) -> (r: &'static str)
    ensures
        r@ == toggle_label(*state),
{
    match state {
        PlaybackState::Stopped => PLAY_LABEL,
        _ => STOP_LABEL,
    }
}

/// Whether the tray must bring the service back to stopped before acting:
/// the service holds a stream as buffering or playing while the player
/// process is not running (it failed to start, or ended on its own), so
/// the next click starts playback again.
pub fn tray_needs_reset(state: &PlaybackState, player_running: bool) -> (r: bool)
    ensures
        r == (!(*state is Stopped) && !player_running),
{
    match state {
        PlaybackState::Stopped => false,
        _ => !player_running,
    }
}

/// After selecting (with result `selected`) led to `mid`: toggling when the
/// selection succeeded, and its error, with nothing more done, when it failed.
pub open spec fn toggled_after_selecting<R: StationRepository, P: AudioPlayback>(
    mid: &PlaybackService<R, P>,
    after: &PlaybackService<R, P>,
    selected: Result<StationSelection, PlaybackError>,
    r: Result<PlaybackState, PlaybackError>,
) -> bool {
    match selected {
        Ok(_) => mid.toggle_outcome(after, r),
        Err(e) => r == Err::<PlaybackState, PlaybackError>(e) && *after == *mid,
    }
}

/// What a toggle with nothing selected may lead to when the repository
/// listed `stations`: an empty list is reported with nothing changed;
/// otherwise the first listed station is selected and then toggled.
pub open spec fn first_toggle_outcome<R: StationRepository, P: AudioPlayback>(
    before: &PlaybackService<R, P>,
    after: &PlaybackService<R, P>,
    stations: Vec<Station>,
    r: Result<PlaybackState, PlaybackError>,
) -> bool {
    if stations.len() == 0 {
        &&& r == Err::<PlaybackState, PlaybackError>(PlaybackError::NoStationsConfigured)
        &&& before.same_setup(after)
        &&& after.state() == before.state()
    } else {
        exists|mid: PlaybackService<R, P>, selected: Result<StationSelection, PlaybackError>|
            #[trigger] before.select_outcome(&mid, stations@[0].id, selected)
                && toggled_after_selecting(&mid, after, selected, r)
    }
}

/// The tray's toggle: selects the first station the repository lists when
/// none is selected (an empty repository is reported, and a failed
/// selection returned), then plays when stopped and stops otherwise.
pub fn toggle_tray_playback<R: StationRepository, P: AudioPlayback>(
    service: &mut PlaybackService<R, P>,
) -> (r: Result<PlaybackState, PlaybackError>)
    ensures
        old(service).selection() is Some ==> old(service).toggle_outcome(final(service), r),
        old(service).selection() is None ==> exists|stations: Vec<Station>|
            #[trigger] old(service).repository_lists(stations) && first_toggle_outcome(
                old(service),
                final(service),
                stations,
                r,
            ),
{
    if service.selected_station().is_none() {
        let selected = service.select_default_station();
        match selected {
            Ok(_) => {},
            Err(e) => return Err(e),
        }
    }
    let ghost mid = *service;
    let r = service.toggle_selected();
    assert(mid.toggle_outcome(&*service, r));
    r
}

/// What the tray tells the desktop (MPRIS clients and a notification) after
/// playback came to a new state.
#[derive(Debug, Clone, Copy, PartialEq, Eq)]
pub enum TrayAnnouncement {
    /// Playback stopped.
    Stopped,
    /// The station now plays.
    NowPlaying,
}

/// The announcement for playback now in `state`: stopped when stopped, and
/// now playing when buffering or playing.
pub fn tray_announcement(state: &PlaybackState) -> (r: TrayAnnouncement)
    ensures
        r == (if *state is Stopped {
            TrayAnnouncement::Stopped
        } else {
            TrayAnnouncement::NowPlaying
        }),
{
    match state {
        PlaybackState::Stopped => TrayAnnouncement::Stopped,
        _ => TrayAnnouncement::NowPlaying,
    }
}

/// What the tray does in response to a command.
#[derive(Debug, Clone, Copy, PartialEq, Eq)]
pub enum TrayAction {
    /// Toggle playback, as a click on the toggle item does.
    Toggle,
    /// Stop playback.
    Stop,
    /// Leave the tray.
    Quit,
    /// Nothing to do.
    Nothing,
}

/// The tray's response to a media-player command while in `state`: play
/// only starts from stopped, pause and stop both stop.
pub open spec fn tray_action(command: MprisCommand, state: PlaybackState) -> TrayAction {
    match command {
        MprisCommand::Play => if state is Stopped {
            TrayAction::Toggle
        } else {
            TrayAction::Nothing
        },
        MprisCommand::Pause | MprisCommand::Stop => TrayAction::Stop,
        MprisCommand::Toggle => TrayAction::Toggle,
        MprisCommand::Quit => TrayAction::Quit,
    }
}

/// In every playback state, Stop and Pause stop playback, Toggle toggles
/// and Quit quits; Play starts playback only from stopped and is otherwise
/// ignored.
pub proof fn lemma_tray_commands(state: PlaybackState)
    ensures
        tray_action(MprisCommand::Stop, state) == TrayAction::Stop,
        tray_action(MprisCommand::Pause, state) == TrayAction::Stop,
        tray_action(MprisCommand::Toggle, state) == TrayAction::Toggle,
        tray_action(MprisCommand::Quit, state) == TrayAction::Quit,
        tray_action(MprisCommand::Play, state) == if state is Stopped {
            TrayAction::Toggle
        } else {
            TrayAction::Nothing
        },
{
}

/// The tray's response to `command` while in `state`.
pub fn tray_action_for_command(command: MprisCommand, state: &PlaybackState) -> (r: TrayAction)
    ensures
        r == tray_action(command, *state),
{
    match command {
        MprisCommand::Play => match state {
            PlaybackState::Stopped => TrayAction::Toggle,
            _ => TrayAction::Nothing,
        },
        MprisCommand::Pause | MprisCommand::Stop => TrayAction::Stop,
        MprisCommand::Toggle => TrayAction::Toggle,
        MprisCommand::Quit => TrayAction::Quit,
    }
}

} // verus!
