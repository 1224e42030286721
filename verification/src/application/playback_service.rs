//! Playback orchestration: selection, play, stop, toggle and snapshots.
use vstd::prelude::*;

use crate::domain::repository::StationRepository;
use crate::domain::station::{
    PlaybackError, PlaybackState, Station, StationId, StationSelection,
};
use crate::application::playback_snapshot::{
    opt_station, snapshot_json, PlaybackSnapshot,
};
use crate::infrastructure::audio_player::AudioPlayback;
use crate::infrastructure::output::{OutputError, OutputSink};

verus! {

impl PlaybackState {
    /// Where playback stands after an attempt to play `selection` whose
    /// player reported `outcome`, and what the attempt returns.
    pub fn after_play_attempt(selection: StationSelection, outcome: Result<(), PlaybackError>) -> (r: (
        PlaybackState,
        Result<PlaybackState, PlaybackError>,
    ))
        ensures
            match outcome {
                Ok(()) => r.0 == PlaybackState::Playing(selection) && r.1 == Ok::<
                    PlaybackState,
                    PlaybackError,
                >(PlaybackState::Playing(selection)),
                Err(e) => r.0 == PlaybackState::Buffering(selection) && r.1 == Err::<
                    PlaybackState,
                    PlaybackError,
                >(e),
            },
    {
        match outcome {
            Ok(()) => {
                let copy = selection.duplicate();
                (PlaybackState::Playing(selection), Ok(PlaybackState::Playing(copy)))
            },
            Err(e) => (PlaybackState::Buffering(selection), Err(e)),
        }
    }

    /// Where playback stands after an attempt to stop from `self` whose
    /// player reported `outcome`, and what the attempt returns.
    pub fn after_stop_attempt(self, outcome: Result<(), PlaybackError>) -> (r: (
        PlaybackState,
        Result<PlaybackState, PlaybackError>,
    ))
        ensures
            match outcome {
                Ok(()) => r.0 == PlaybackState::Stopped && r.1 == Ok::<
                    PlaybackState,
                    PlaybackError,
                >(PlaybackState::Stopped),
                Err(e) => r.0 == self && r.1 == Err::<PlaybackState, PlaybackError>(e),
            },
    {
        match outcome {
            Ok(()) => (PlaybackState::Stopped, Ok(PlaybackState::Stopped)),
            Err(e) => (self, Err(e)),
        }
    }
}

impl StationSelection {
    /// The outcome of selecting `id` when the repository did (`found`) or
    /// did not hold a station with that id.
    pub fn after_lookup(id: &StationId, found: bool) -> (r: Result<StationSelection, PlaybackError>)
        ensures
            found ==> (r matches Ok(sel) && sel@ == id@ && sel.id() == *id),
            !found ==> r == Err::<StationSelection, PlaybackError>(
                PlaybackError::StationNotFound(*id),
            ),
    {
        if found {
            Ok(StationSelection::new(id.duplicate()))
        } else {
            Err(PlaybackError::StationNotFound(id.duplicate()))
        }
    }
}

/// Drives a player over the stations of a repository, keeping track of the
/// selected station and of where playback stands. The repository and the
/// player are supplied by the caller; what they answer is taken as it comes.
pub struct PlaybackService<R: StationRepository, P: AudioPlayback> {
    repository: R,
    player: P,
    selected_station: Option<StationSelection>,
    playback_state: PlaybackState,
}

impl<R: StationRepository, P: AudioPlayback> PlaybackService<R, P> {
    /// The repository the service reads.
    pub closed spec fn repository_model(&self) -> R {
        self.repository
    }

    /// The player the service drives.
    pub closed spec fn player_model(&self) -> P {
        self.player
    }

    /// The selected station, if any.
    pub closed spec fn selection(&self) -> Option<StationSelection> {
        self.selected_station
    }

    /// Where playback stands.
    pub closed spec fn state(&self) -> PlaybackState {
        self.playback_state
    }

    /// `stations` is a list the repository's `list` may return.
    pub open spec fn repository_lists(&self, stations: Vec<Station>) -> bool {
        call_ensures(R::list, (&self.repository_model(),), stations)
    }

    /// `answer` is what the repository's `get` may return for `id`.
    pub open spec fn repository_answers(&self, id: &StationId, answer: Option<Station>) -> bool {
        call_ensures(R::get, (&self.repository_model(), id), answer)
    }

    /// `outcome` is what the player's `stop_playback` may report.
    pub open spec fn player_stop_answers(&self, outcome: Result<(), PlaybackError>) -> bool {
        call_ensures(P::stop_playback, (&self.player_model(),), outcome)
    }

    /// The player's `stop_playback` may report success.
    pub open spec fn player_stop_succeeds(&self) -> bool {
        exists|outcome: Result<(), PlaybackError>|
            outcome is Ok && #[trigger] self.player_stop_answers(outcome)
    }

    /// `next` has the repository and player of `self`.
    pub open spec fn same_parts(&self, next: &Self) -> bool {
        &&& next.repository_model() == self.repository_model()
        &&& next.player_model() == self.player_model()
    }

    /// `next` has the repository, player and selection of `self`.
    pub open spec fn same_setup(&self, next: &Self) -> bool {
        &&& self.same_parts(next)
        &&& next.selection() == self.selection()
    }

    /// The repository's `get` may find a station with id `id`.
    pub open spec fn repository_has(&self, id: &StationId) -> bool {
        exists|station: Station| #[trigger] self.repository_answers(id, Some(station))
    }

    /// `outcome` is what the player's `play_station` may report for
    /// `station`.
    pub open spec fn player_play_answers(
        &self,
        station: &Station,
        outcome: Result<(), PlaybackError>,
    ) -> bool {
        call_ensures(P::play_station, (&self.player_model(), station), outcome)
    }

    /// The player's `play_station` may report success for `station`.
    pub open spec fn player_play_succeeds(&self, station: &Station) -> bool {
        exists|outcome: Result<(), PlaybackError>|
            outcome is Ok && #[trigger] self.player_play_answers(station, outcome)
    }

    /// What selecting `id` from `self` may lead to: when the repository's
    /// `get` finds a station, it is selected; when it finds none, the
    /// station is not found and the selection is kept. Playback is
    /// untouched.
    pub open spec fn select_outcome(
        &self,
        next: &Self,
        id: StationId,
        r: Result<StationSelection, PlaybackError>,
    ) -> bool {
        &&& self.same_parts(next)
        &&& next.state() == self.state()
        &&& match r {
            Ok(sel) => sel.id() == id && sel@ == id@ && next.selection() == Some(sel)
                && self.repository_has(&id),
            Err(e) => e == PlaybackError::StationNotFound(id) && next.selection()
                == self.selection() && self.repository_answers(&id, None),
        }
    }

    /// What handing `station` to the player for the selection `sel` may
    /// lead to: playing when the player reports success, and the player's
    /// error, with playback left buffering, otherwise.
    pub open spec fn handed_to_player(
        &self,
        next: &Self,
        sel: StationSelection,
        station: Station,
        r: Result<PlaybackState, PlaybackError>,
    ) -> bool {
        match r {
            Ok(s) => s == PlaybackState::Playing(sel) && next.state() == PlaybackState::Playing(sel)
                && self.player_play_succeeds(&station),
            Err(e) => next.state() == PlaybackState::Buffering(sel) && self.player_play_answers(
                &station,
                Err(e),
            ),
        }
    }

    /// What a play request from `self` may lead to: `next` and `r`. With
    /// nothing selected there is nothing to play. Otherwise the selected id
    /// is looked up: a station the repository does not find is reported,
    /// and the station it finds is handed to the player.
    pub open spec fn play_outcome(
        &self,
        next: &Self,
        r: Result<PlaybackState, PlaybackError>,
    ) -> bool {
        &&& self.same_setup(next)
        &&& match self.selection() {
            None => r == Err::<PlaybackState, PlaybackError>(PlaybackError::NoStationsConfigured)
                && next.state() == self.state(),
            Some(sel) => {
                ||| (r == Err::<PlaybackState, PlaybackError>(
                    PlaybackError::StationNotFound(sel.id()),
                ) && next.state() == self.state() && self.repository_answers(&sel.id(), None))
                ||| exists|station: Station|
                    #[trigger] self.repository_answers(&sel.id(), Some(station))
                        && self.handed_to_player(next, sel, station, r)
            },
        }
    }

    /// What a stop request from `self` may lead to: `next` and `r`. Playback
    /// stops when the player reports success; an error the player reports
    /// is returned and playback stays where it was.
    pub open spec fn stop_outcome(
        &self,
        next: &Self,
        r: Result<PlaybackState, PlaybackError>,
    ) -> bool {
        &&& self.same_setup(next)
        &&& match r {
            Ok(s) => s == PlaybackState::Stopped && next.state() == PlaybackState::Stopped
                && self.player_stop_succeeds(),
            Err(e) => next.state() == self.state() && self.player_stop_answers(Err(e)),
        }
    }

    /// What a toggle request from `self` may lead to.
    pub open spec fn toggle_outcome(
        &self,
        next: &Self,
        r: Result<PlaybackState, PlaybackError>,
    ) -> bool {
        if self.state() is Stopped {
            self.play_outcome(next, r)
        } else {
            self.stop_outcome(next, r)
        }
    }

    /// A service over `repository` and `player`, with nothing selected and
    /// playback stopped.
    pub fn new(repository: R, player: P) -> (r: Self)
        ensures
            r.repository_model() == repository,
            r.player_model() == player,
            r.selection() is None,
            r.state() == PlaybackState::Stopped,
    {
        PlaybackService {
            repository,
            player,
            selected_station: None,
            playback_state: PlaybackState::Stopped,
        }
    }

    /// All stations of the repository, as it lists them.
    pub fn list_stations(&self) -> (r: Vec<Station>)
        ensures
            self.repository_lists(r),
    {
        self.repository.list()
    }

    /// The station with id `id`, as the repository answers.
    pub fn preview_station(&self, id: &StationId) -> (r: Option<Station>)
        ensures
            self.repository_answers(id, r),
    {
        self.repository.get(id)
    }

    /// Selects the station with id `id` if the repository has one.
    pub fn select_station(&mut self, id: &StationId) -> (r: Result<StationSelection, PlaybackError>)
        ensures
            old(self).select_outcome(final(self), *id, r),
    {
        let answer = self.repository.get(id);
        proof {
            if answer is Some {
                assert(old(self).repository_answers(id, Some(answer->0)));
            }
        }
        let found = answer.is_some();
        let r = StationSelection::after_lookup(id, found);
        match &r {
            Ok(sel) => {
                self.selected_station = Some(sel.duplicate());
            },
            Err(_) => {},
        }
        r
    }

    /// Selects the first station the repository lists.
    pub fn select_default_station(&mut self) -> (r: Result<StationSelection, PlaybackError>)
        ensures
            exists|stations: Vec<Station>|
                {
                    &&& #[trigger] old(self).repository_lists(stations)
                    &&& if stations.len() == 0 {
                        &&& r == Err::<StationSelection, PlaybackError>(
                            PlaybackError::NoStationsConfigured,
                        )
                        &&& old(self).same_setup(final(self))
                        &&& final(self).state() == old(self).state()
                    } else {
                        old(self).select_outcome(final(self), stations@[0].id, r)
                    }
                },
    {
        let stations = self.list_stations();
        if stations.len() == 0 {
            return Err(PlaybackError::NoStationsConfigured);
        }
        self.select_station(&stations[0].id)
    }

    /// The selected station, if any.
    pub fn selected_station(&self) -> (r: Option<StationSelection>)
        ensures
            r == self.selection(),
    {
        match &self.selected_station {
            Some(s) => Some(s.duplicate()),
            None => None,
        }
    }

    /// Where playback stands.
    pub fn playback_state(&self) -> (r: PlaybackState)
        ensures
            r == self.state(),
    {
        self.playback_state.duplicate()
    }

    /// The label of where playback stands.
    pub fn status_label(&self) -> (r: &'static str)
        ensures
            r@ == self.state().label(),
    {
        self.playback_state.status_label()
    }

    /// Plays the selected station: playback is buffering while the player
    /// starts and playing once it has.
    pub fn play_selected(&mut self) -> (r: Result<PlaybackState, PlaybackError>)
        ensures
            old(self).play_outcome(final(self), r),
    {
        let selection = match &self.selected_station {
            Some(s) => s.duplicate(),
            None => return Err(PlaybackError::NoStationsConfigured),
        };
        let answer = self.repository.get(selection.station_id());
        assert(old(self).repository_answers(&selection.id(), answer));
        let station = match answer {
            Some(s) => s,
            None => return Err(PlaybackError::StationNotFound(selection.station_id().duplicate())),
        };
        self.playback_state = PlaybackState::Buffering(selection.duplicate());
        let outcome = self.player.play_station(&station);
        assert(old(self).player_play_answers(&station, outcome));
        let (state, result) = PlaybackState::after_play_attempt(selection, outcome);
        self.playback_state = state;
        result
    }

    /// Stops playback.
    pub fn stop(&mut self) -> (r: Result<PlaybackState, PlaybackError>)
        ensures
            old(self).stop_outcome(final(self), r),
    {
        let outcome = self.player.stop_playback();
        assert(old(self).player_stop_answers(outcome));
        let previous = self.playback_state.duplicate();
        let (state, result) = previous.after_stop_attempt(outcome);
        self.playback_state = state;
        result
    }

    /// Plays the selected station when stopped, and stops otherwise.
    pub fn toggle_selected(&mut self) -> (r: Result<PlaybackState, PlaybackError>)
        ensures
            old(self).toggle_outcome(final(self), r),
    {
        match self.playback_state {
            PlaybackState::Stopped => self.play_selected(),
            PlaybackState::Buffering(_) | PlaybackState::Playing(_) => self.stop(),
        }
    }

    /// Writes a snapshot of `state` (with `station`, and the number of
    /// stations the repository lists) to `sink` as one JSON line, then
    /// flushes the sink: the sink's `emit` is handed the snapshot's JSON
    /// text; an error it reports is returned, and else the sink is flushed
    /// and what `flush` reports is returned.
    pub fn emit_snapshot<S: OutputSink>(
        &self,
        state: PlaybackState,
        station: Option<Station>,
        sink: &mut S,
    ) -> (r: Result<(), OutputError>)
        ensures
            exists|
                stations: Vec<Station>,
                text: &str,
                emit_ref: &mut S,
                emitted: Result<(), OutputError>,
            |
                #![trigger self.repository_lists(stations), sink_emit_answers(emit_ref, text, emitted)]
                {
                    &&& self.repository_lists(stations)
                    &&& snapshot_json(state.label(), opt_station(station), stations.len() as nat)
                        == Some(text@)
                    &&& mut_ref_current(emit_ref) == *old(sink)
                    &&& sink_emit_answers(emit_ref, text, emitted)
                    &&& match emitted {
                        Err(e) => r == Err::<(), OutputError>(e) && *final(sink) == mut_ref_future(
                            emit_ref,
                        ),
                        Ok(_) => exists|flush_ref: &mut S|
                            {
                                &&& #[trigger] sink_flush_answers(flush_ref, r)
                                &&& mut_ref_current(flush_ref) == mut_ref_future(emit_ref)
                                &&& mut_ref_future(flush_ref) == *final(sink)
                            },
                    }
                },
    {
        let stations = self.list_stations();
        let line = match snapshot_line(&state, station, stations.len()) {
            Ok(j) => j,
            Err(e) => return Err(e),
        };
        let text = line.as_str();
        let ghost before = *sink;
        let emitted = sink.emit(text);
        proof {
            let emit_ref = choose|m: &mut S|
                mut_ref_current(m) == before && mut_ref_future(m) == *sink
                    && #[trigger] call_ensures(S::emit, (m, text), emitted);
            assert(sink_emit_answers(emit_ref, text, emitted));
        }
        match emitted {
            Ok(()) => {},
            Err(e) => return Err(e),
        }
        let ghost mid = *sink;
        let r = sink.flush();
        proof {
            let flush_ref = choose|m: &mut S|
                mut_ref_current(m) == mid && mut_ref_future(m) == *sink
                    && #[trigger] call_ensures(S::flush, (m,), r);
            assert(sink_flush_answers(flush_ref, r));
        }
        r
    }
}

/// `outcome` is what the sink's `emit` may report when called through
/// `sink_ref` with `text`.
pub open spec fn sink_emit_answers<S: OutputSink>(
    sink_ref: &mut S,
    text: &str,
    outcome: Result<(), OutputError>,
) -> bool {
    call_ensures(S::emit, (sink_ref, text), outcome)
}

/// `outcome` is what the sink's `flush` may report when called through
/// `sink_ref`.
pub open spec fn sink_flush_answers<S: OutputSink>(
    sink_ref: &mut S,
    outcome: Result<(), OutputError>,
) -> bool {
    call_ensures(S::flush, (sink_ref,), outcome)
}

/// The JSON line of a snapshot of `state` with `station` and
/// `stations_available` stations.
pub fn snapshot_line(state: &PlaybackState, station: Option<Station>, stations_available: usize) -> (r:
    Result<String, OutputError>)
    ensures
        match snapshot_json(state.label(), opt_station(station), stations_available as nat) {
            Some(j) => r matches Ok(t) && t@ == j,
            None => r is Err,
        },
{
    let snapshot = PlaybackSnapshot {
        state: state.status_label().to_owned(),
        station,
        stations_available,
    };
    snapshot.to_json()
}

/// A successful play followed by a successful stop leaves playback stopped
/// with the selection it had.
pub proof fn lemma_play_then_stop<R: StationRepository, P: AudioPlayback>(
    s0: PlaybackService<R, P>,
    s1: PlaybackService<R, P>,
    s2: PlaybackService<R, P>,
    r1: Result<PlaybackState, PlaybackError>,
    r2: Result<PlaybackState, PlaybackError>,
)
    requires
        s0.play_outcome(&s1, r1),
        r1 is Ok,
        s1.stop_outcome(&s2, r2),
        r2 is Ok,
    ensures
        s2.state() == PlaybackState::Stopped,
        s2.selection() == s0.selection(),
        s0.selection() matches Some(sel) && s1.state() == PlaybackState::Playing(sel),
{
}

/// Toggling from stopped and then toggling again, both successfully, plays
/// the selected station (one the repository found, whose start the player
/// reported as a success) and then stops, keeping the selection.
pub proof fn lemma_toggle_twice<R: StationRepository, P: AudioPlayback>(
    s0: PlaybackService<R, P>,
    s1: PlaybackService<R, P>,
    s2: PlaybackService<R, P>,
    r1: Result<PlaybackState, PlaybackError>,
    r2: Result<PlaybackState, PlaybackError>,
)
    requires
        s0.state() == PlaybackState::Stopped,
        s0.toggle_outcome(&s1, r1),
        r1 is Ok,
        s1.toggle_outcome(&s2, r2),
        r2 is Ok,
    ensures
        s0.selection() matches Some(sel) && s1.state() == PlaybackState::Playing(sel) && r1
            == Ok::<PlaybackState, PlaybackError>(PlaybackState::Playing(sel)) && exists|
            station: Station,
        |
            #[trigger] s0.repository_answers(&sel.id(), Some(station))
                && s0.player_play_succeeds(&station),
        r2 == Ok::<PlaybackState, PlaybackError>(PlaybackState::Stopped),
        s2.state() == PlaybackState::Stopped,
        s2.selection() == s0.selection(),
{
}

/// Selecting never changes where playback stands, and playing or stopping
/// never changes the selection.
pub proof fn lemma_selection_and_playback_independent<R: StationRepository, P: AudioPlayback>(
    s0: PlaybackService<R, P>,
    s1: PlaybackService<R, P>,
    id: StationId,
    rs: Result<StationSelection, PlaybackError>,
    rp: Result<PlaybackState, PlaybackError>,
)
    ensures
        s0.select_outcome(&s1, id, rs) ==> s1.state() == s0.state(),
        s0.play_outcome(&s1, rp) ==> s1.selection() == s0.selection(),
        s0.stop_outcome(&s1, rp) ==> s1.selection() == s0.selection(),
        s0.toggle_outcome(&s1, rp) ==> s1.selection() == s0.selection(),
{
}

} // verus!
