//! A station library persisted as a JSON document: which stations a stored
//! document yields, and when a change must be written back.
use vstd::prelude::*;

use crate::config::DEFAULT_STATION_URL;
use crate::domain::repository::{
    contains_id, lookup, merge_new, views, without_id, StationRepository, StoreError,
};
use crate::domain::station::{station_from_input, Station, StationId, StationView};
use crate::infrastructure::in_memory_store::{
    copy_stations, holds_id, merge_stations, position_of, remove_id,
};
use crate::text::{append_str, chars_of, lemma_trim_fixed, string_from_chars};

verus! {

/// The version of the document envelope written by `save`.
pub const STORE_VERSION: u32 = 1;

/// The name of the station a new library starts with.
pub const DEFAULT_STATION_NAME: &'static str = "KEXP";

/// The genre of the station a new library starts with.
pub const DEFAULT_STATION_GENRE: &'static str = "eclectic";

/// What was found at the library's path.
pub enum StoredDocument {
    /// No file.
    Absent,
    /// A versioned envelope holding these stations.
    Versioned(Vec<Station>),
    /// A bare array of stations, the format before envelopes.
    Legacy(Vec<Station>),
    /// A file in neither format.
    Unrecognised,
}

/// Whether a change must be written back to the file.
#[derive(Debug, Clone, Copy, PartialEq, Eq)]
pub enum Persistence {
    /// Write the library back.
    Save,
    /// Nothing changed; no write.
    Keep,
}

/// A station library backed by a JSON file at `path`.
pub struct JsonStationRepository {
    path: String,
    stations: Vec<Station>,
}

/// The station a new library starts with.
pub open spec fn seed_station() -> StationView {
    station_from_input(DEFAULT_STATION_NAME@, DEFAULT_STATION_URL@, DEFAULT_STATION_GENRE@)
}

impl View for JsonStationRepository {
    type V = Seq<StationView>;

    closed spec fn view(&self) -> Seq<StationView> {
        views(self.stations@)
    }
}

impl JsonStationRepository {
    /// The file the library lives in.
    pub closed spec fn path_view(&self) -> Seq<char> {
        self.path@
    }

    /// The library found at `path`: the stations of a versioned or legacy
    /// document, the KEXP stream when there is no file, and an error for a
    /// file in neither format.
    pub fn open_document(path: String, document: StoredDocument) -> (r: Result<Self, StoreError>)
        ensures
            match document {
                StoredDocument::Absent => r matches Ok(repo) && repo@ == seq![seed_station()]
                    && repo.path_view() == path@,
                StoredDocument::Versioned(v) => r matches Ok(repo) && repo@ == views(v@)
                    && repo.path_view() == path@,
                StoredDocument::Legacy(v) => r matches Ok(repo) && repo@ == views(v@)
                    && repo.path_view() == path@,
                StoredDocument::Unrecognised => r matches Err(StoreError::Storage(m)) && m@
                    == "station store at '"@ + path@ + "' has an unrecognised format"@,
            },
    {
        match document {
            StoredDocument::Absent => {
                proof {
                    lemma_seed_valid();
                }
                let kexp = match Station::new(
                    DEFAULT_STATION_NAME,
                    DEFAULT_STATION_URL,
                    DEFAULT_STATION_GENRE,
                ) {
                    Ok(s) => s,
                    Err(e) => return Err(StoreError::Storage(e)),
                };
                let mut stations: Vec<Station> = Vec::new();
                stations.push(kexp);
                let repo = JsonStationRepository { path, stations };
                assert(repo@ =~= seq![seed_station()]);
                Ok(repo)
            },
            StoredDocument::Versioned(v) => Ok(JsonStationRepository { path, stations: v }),
            StoredDocument::Legacy(v) => Ok(JsonStationRepository { path, stations: v }),
            StoredDocument::Unrecognised => {
                let mut m = chars_of("station store at '");
                append_str(&mut m, path.as_str());
                append_str(&mut m, "' has an unrecognised format");
                Err(StoreError::Storage(string_from_chars(&m)))
            },
        }
    }

    /// The file the library lives in.
    pub fn path(&self) -> (r: &str)
        ensures
            r@ == self.path_view(),
    {
        self.path.as_str()
    }

    /// Adds a station whose id is not present yet; the library must then be
    /// saved.
    pub fn add(&mut self, station: Station) -> (r: Result<Persistence, StoreError>)
        ensures
            final(self).path_view() == old(self).path_view(),
            contains_id(old(self)@, station.id@) ==> final(self)@ == old(self)@ && (r matches Err(
                StoreError::DuplicateStation(id),
            ) && id@ == station.id@),
            !contains_id(old(self)@, station.id@) ==> final(self)@ == old(self)@.push(station@)
                && r == Ok::<Persistence, StoreError>(Persistence::Save),
    {
        if holds_id(&self.stations, &station.id) {
            return Err(StoreError::DuplicateStation(station.id.duplicate()));
        }
        let ghost before = self.stations@;
        self.stations.push(station);
        assert(views(self.stations@) =~= views(before).push(station@));
        Ok(Persistence::Save)
    }

    /// Removes every station with id `id`; tells whether one was there, and
    /// asks for a save exactly then.
    pub fn remove(&mut self, id: &StationId) -> (r: (bool, Persistence))
        ensures
            final(self).path_view() == old(self).path_view(),
            final(self)@ == without_id(old(self)@, id@),
            r.0 == contains_id(old(self)@, id@),
            r.1 == if r.0 {
                Persistence::Save
            } else {
                Persistence::Keep
            },
    {
        let kept = remove_id(&self.stations, id);
        proof {
            crate::domain::repository::lemma_without_id(self@, id@);
        }
        let removed = kept.len() < self.stations.len();
        self.stations = kept;
        (
            removed,
            if removed {
                Persistence::Save
            } else {
                Persistence::Keep
            },
        )
    }

    /// Adds each station whose id is not present yet, in order; tells how
    /// many, and asks for a save exactly when there were some.
    pub fn add_many(&mut self, stations: Vec<Station>) -> (r: (usize, Persistence))
        ensures
            final(self).path_view() == old(self).path_view(),
            final(self)@ == merge_new(old(self)@, views(stations@)),
            r.0 == final(self)@.len() - old(self)@.len(),
            r.1 == if r.0 > 0 {
                Persistence::Save
            } else {
                Persistence::Keep
            },
    {
        let added = merge_stations(&mut self.stations, stations);
        (
            added,
            if added > 0 {
                Persistence::Save
            } else {
                Persistence::Keep
            },
        )
    }
}

impl StationRepository for JsonStationRepository {
    /// All stations, in order.
    fn list(&self) -> (r: Vec<Station>)
        ensures
            views(r@) == self@,
    {
        copy_stations(&self.stations)
    }

    /// The first station with id `id`.
    fn get(&self, id: &StationId) -> (r: Option<Station>)
        ensures
            match r {
                Some(s) => lookup(self@, id@) == Some(s@),
                None => lookup(self@, id@) is None,
            },
    {
        match position_of(&self.stations, id) {
            Some(i) => Some(self.stations[i].duplicate()),
            None => None,
        }
    }
}

/// The seed station's input is valid.
proof fn lemma_seed_valid()
    ensures
        crate::domain::station::valid_station_input(
            DEFAULT_STATION_NAME@,
            DEFAULT_STATION_URL@,
            DEFAULT_STATION_GENRE@,
        ),
{
    reveal_strlit("KEXP");
    reveal_strlit("http://live-mp3-128.kexp.org/kexp128.mp3");
    reveal_strlit("eclectic");
    reveal_strlit("http://");
    lemma_trim_fixed(DEFAULT_STATION_NAME@);
    lemma_trim_fixed(DEFAULT_STATION_URL@);
    lemma_trim_fixed(DEFAULT_STATION_GENRE@);
    assert(DEFAULT_STATION_URL@.subrange(0, 7) =~= "http://"@);
}

} // verus!
