//! The state the MPRIS media-player interface advertises, the commands it
//! relays, and the metadata it publishes.
use vstd::prelude::*;

use crate::domain::station::PlaybackState;

verus! {

/// The D-Bus name the player is published under.
pub const MPRIS_BUS_NAME: &'static str = "org.mpris.MediaPlayer2.radio-slate";

/// The object path of the player.
pub const MPRIS_OBJECT_PATH: &'static str = "/org/mpris/MediaPlayer2";

/// The track id of the (single) current track.
pub const TRACK_ID_PATH: &'static str = "/org/radio_slate/track/current";

/// What the media-player interface advertises.
#[derive(Debug, Clone)]
pub struct MprisSharedState {
    pub playback_status: String,
    pub station_name: String,
    pub station_url: String,
}

impl Default for MprisSharedState {
    /// Stopped, with no station.
    fn default() -> (r: MprisSharedState)
        ensures
            r.playback_status@ == "Stopped"@,
            r.station_name@ == Seq::<char>::empty(),
            r.station_url@ == Seq::<char>::empty(),
    {
        MprisSharedState {
            playback_status: "Stopped".to_owned(),
            station_name: String::new(),
            station_url: String::new(),
        }
    }
}

/// The MPRIS status of a playback state. MPRIS knows no buffering, so a
/// buffering stream counts as playing.
pub open spec fn mpris_status(state: PlaybackState) -> Seq<char> {
    match state {
        PlaybackState::Stopped => "Stopped"@,
        _ => "Playing"@,
    }
}

impl MprisSharedState {
    /// The advertised state for `state` on `station_name` at `station_url`.
    pub fn from_playback_state(state: PlaybackState, station_name: &str, station_url: &str) -> (r:
        MprisSharedState)
        ensures
            r.playback_status@ == mpris_status(state),
            r.station_name@ == station_name@,
            r.station_url@ == station_url@,
    {
        let status = match state {
            PlaybackState::Playing(_) | PlaybackState::Buffering(_) => "Playing",
            PlaybackState::Stopped => "Stopped",
        };
        MprisSharedState {
            playback_status: status.to_owned(),
            station_name: station_name.to_owned(),
            station_url: station_url.to_owned(),
        }
    }

    /// Now playing `station_name` at `station_url`.
    pub fn set_playing(&mut self, station_name: &str, station_url: &str)
        ensures
            final(self).playback_status@ == "Playing"@,
            final(self).station_name@ == station_name@,
            final(self).station_url@ == station_url@,
    {
        self.playback_status = "Playing".to_owned();
        self.station_name = station_name.to_owned();
        self.station_url = station_url.to_owned();
    }

    /// Now stopped; the station stays advertised.
    pub fn set_stopped(&mut self)
        ensures
            final(self).playback_status@ == "Stopped"@,
            final(self).station_name == old(self).station_name,
            final(self).station_url == old(self).station_url,
    {
        self.playback_status = "Stopped".to_owned();
    }
}

/// Commands the media-player interface relays from its clients.
#[derive(Debug, Clone, Copy, PartialEq, Eq)]
pub enum MprisCommand {
    Play,
    Pause,
    Stop,
    Toggle,
    Quit,
}

/// A value of the published metadata.
#[derive(Debug, Clone, PartialEq, Eq)]
pub enum MetadataValue {
    /// A D-Bus object path.
    ObjectPath(String),
    /// A plain string.
    Text(String),
}

/// A metadata value as `(is an object path, text)`.
pub open spec fn value_view(v: MetadataValue) -> (bool, Seq<char>) {
    match v {
        MetadataValue::ObjectPath(p) => (true, p@),
        MetadataValue::Text(t) => (false, t@),
    }
}

/// The metadata entries as `(key, (is an object path, text))`.
pub open spec fn entries_view(v: Seq<(String, MetadataValue)>) -> Seq<(Seq<char>, (bool, Seq<char>))> {
    v.map_values(|e: (String, MetadataValue)| (e.0@, value_view(e.1)))
}

/// The metadata published for a station: the track id always (MPRIS
/// requires it), the title and url when they are not empty.
pub open spec fn metadata_for(name: Seq<char>, url: Seq<char>) -> Seq<(Seq<char>, (bool, Seq<char>))> {
    let track = seq![("mpris:trackid"@, (true, "/org/radio_slate/track/current"@))];
    let title = if name.len() > 0 {
        seq![("xesam:title"@, (false, name))]
    } else {
        Seq::empty()
    };
    let link = if url.len() > 0 {
        seq![("xesam:url"@, (false, url))]
    } else {
        Seq::empty()
    };
    track + title + link
}

/// The metadata entries for `station_name` at `station_url`.
pub fn metadata_entries(station_name: &str, station_url: &str) -> (r: Vec<(String, MetadataValue)>)
    ensures
        entries_view(r@) == metadata_for(station_name@, station_url@),
{
    let mut v: Vec<(String, MetadataValue)> = Vec::new();
    v.push(("mpris:trackid".to_owned(), MetadataValue::ObjectPath(TRACK_ID_PATH.to_owned())));
    if !station_name.is_empty() {
        v.push(("xesam:title".to_owned(), MetadataValue::Text(station_name.to_owned())));
    }
    if !station_url.is_empty() {
        v.push(("xesam:url".to_owned(), MetadataValue::Text(station_url.to_owned())));
    }
    assert(entries_view(v@) =~= metadata_for(station_name@, station_url@));
    v
}

} // verus!
