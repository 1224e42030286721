//! Stations, selections, playback states and the rule that builds a station.
use vstd::prelude::*;

use crate::text::{
    append_chars, append_str, chars_of, has_prefix, lemma_trim_idempotent,
    starts_with_str, string_from_chars, trim, trimmed, trimmed_str, ascii_lower,
    ascii_lower_char,
};

verus! {

/// What a station holds, as character sequences.
pub struct StationView {
    pub id: Seq<char>,
    pub name: Seq<char>,
    pub url: Seq<char>,
    pub genre: Seq<char>,
}

/// A radio stream the library knows about.
#[derive(Debug, Clone, PartialEq, Eq)]
pub struct Station {
    pub id: StationId,
    pub name: String,
    pub url: String,
    pub genre: String,
}

/// The key under which a station is stored.
#[derive(Debug, Clone, PartialEq, Eq, Hash)]
pub struct StationId(String);

impl View for StationId {
    type V = Seq<char>;

    closed spec fn view(&self) -> Seq<char> {
        self.0@
    }
}

impl StationId {
    /// An id holding the text `value`.
    pub fn new(value: &str) -> (r: StationId)
        ensures
            r@ == value@,
    {
        StationId(value.to_owned())
    }

    /// An id holding the text `value`.
    pub fn from_string(value: String) -> (r: StationId)
        ensures
            r@ == value@,
    {
        StationId(value)
    }

    /// The id's text.
    pub fn as_str(&self) -> (r: &str)
        ensures
            r@ == self@,
    {
        self.0.as_str()
    }

    /// The id's text, owned.
    pub fn to_string(&self) -> (r: String)
        ensures
            r@ == self@,
    {
        self.0.clone()
    }

    /// An identical copy.
    pub fn duplicate(&self) -> (r: StationId)
        ensures
            r == *self,
    {
        StationId(self.0.clone())
    }

    /// Whether the two ids hold the same text.
    pub fn same_as(&self, other: &StationId) -> (r: bool)
        ensures
            r == (self@ == other@),
    {
        self.0 == other.0
    }
}

impl View for Station {
    type V = StationView;

    open spec fn view(&self) -> StationView {
        StationView { id: self.id@, name: self.name@, url: self.url@, genre: self.genre@ }
    }
}

impl Station {
    /// An identical copy.
    pub fn duplicate(&self) -> (r: Station)
        ensures
            r == *self,
    {
        Station {
            id: self.id.duplicate(),
            name: self.name.clone(),
            url: self.url.clone(),
            genre: self.genre.clone(),
        }
    }
}

/// The station chosen for playback.
#[derive(Debug, Clone, PartialEq, Eq)]
pub struct StationSelection {
    station_id: StationId,
}

impl View for StationSelection {
    type V = Seq<char>;

    closed spec fn view(&self) -> Seq<char> {
        self.station_id@
    }
}

impl StationSelection {
    /// The id of the selected station.
    pub closed spec fn id(&self) -> StationId {
        self.station_id
    }

    /// A selection of the station with id `station_id`.
    pub fn new(station_id: StationId) -> (r: StationSelection)
        ensures
            r@ == station_id@,
            r.id() == station_id,
    {
        StationSelection { station_id }
    }

    /// The selected station's id.
    pub fn station_id(&self) -> (r: &StationId)
        ensures
            r@ == self@,
            *r == self.id(),
    {
        &self.station_id
    }

    /// An identical copy.
    pub fn duplicate(&self) -> (r: StationSelection)
        ensures
            r == *self,
    {
        StationSelection { station_id: self.station_id.duplicate() }
    }
}

/// Where playback stands.
#[derive(Debug, Clone, PartialEq, Eq)]
pub enum PlaybackState {
    Stopped,
    Buffering(StationSelection),
    Playing(StationSelection),
}

impl PlaybackState {
    /// The label of a state: "stopped", "buffering" or "playing".
    pub open spec fn label(&self) -> Seq<char> {
        match self {
            PlaybackState::Stopped => "stopped"@,
            PlaybackState::Playing(_) => "playing"@,
            PlaybackState::Buffering(_) => "buffering"@,
        }
    }

    /// The state's label.
    pub fn status_label(&self) -> (r: &'static str)
        ensures
            r@ == self.label(),
    {
        match self {
            PlaybackState::Stopped => "stopped",
            PlaybackState::Playing(_) => "playing",
            PlaybackState::Buffering(_) => "buffering",
        }
    }

    /// An identical copy.
    pub fn duplicate(&self) -> (r: PlaybackState)
        ensures
            r == *self,
    {
        match self {
            PlaybackState::Stopped => PlaybackState::Stopped,
            PlaybackState::Buffering(s) => PlaybackState::Buffering(s.duplicate()),
            PlaybackState::Playing(s) => PlaybackState::Playing(s.duplicate()),
        }
    }
}

/// Why a playback request failed.
#[derive(Debug, Clone, PartialEq, Eq)]
pub enum PlaybackError {
    NoStationsConfigured,
    StationNotFound(StationId),
    PlayerUnavailable(String),
}

impl PlaybackError {
    /// The text a user is shown for the error.
    pub open spec fn message_view(&self) -> Seq<char> {
        match self {
            PlaybackError::NoStationsConfigured => "no stations configured"@,
            PlaybackError::StationNotFound(id) => "station not found: "@ + id@,
            PlaybackError::PlayerUnavailable(message) => message@,
        }
    }

    /// The text a user is shown for the error.
    pub fn message(&self) -> (r: String)
        ensures
            r@ == self.message_view(),
    {
        match self {
            PlaybackError::NoStationsConfigured => "no stations configured".to_owned(),
            PlaybackError::StationNotFound(id) => {
                let mut v = chars_of("station not found: ");
                append_str(&mut v, id.as_str());
                string_from_chars(&v)
            },
            PlaybackError::PlayerUnavailable(message) => message.clone(),
        }
    }

    /// An identical copy.
    pub fn duplicate(&self) -> (r: PlaybackError)
        ensures
            r == *self,
    {
        match self {
            PlaybackError::NoStationsConfigured => PlaybackError::NoStationsConfigured,
            PlaybackError::StationNotFound(id) => PlaybackError::StationNotFound(id.duplicate()),
            PlaybackError::PlayerUnavailable(m) => PlaybackError::PlayerUnavailable(m.clone()),
        }
    }
}

// ── The rule that builds a station ───────────────────────────────────────────

/// The message for a station with an empty name, url or genre.
pub open spec fn missing_fields_message() -> Seq<char> {
    "station name, url, and genre must all be set"@
}

/// The message for a station whose url is not http or https.
pub open spec fn bad_scheme_message() -> Seq<char> {
    "station url must use http or https"@
}

/// A url that names an http or https stream.
pub open spec fn is_stream_url(url: Seq<char>) -> bool {
    has_prefix(url, "http://"@) || has_prefix(url, "https://"@)
}

/// Name, url and genre are all non-empty once trimmed.
pub open spec fn fields_present(name: Seq<char>, url: Seq<char>, genre: Seq<char>) -> bool {
    trim(name).len() > 0 && trim(url).len() > 0 && trim(genre).len() > 0
}

/// The inputs `Station::new` accepts.
pub open spec fn valid_station_input(name: Seq<char>, url: Seq<char>, genre: Seq<char>) -> bool {
    fields_present(name, url, genre) && is_stream_url(trim(url))
}

/// A name character as it appears in an id: ASCII lowered, space as `-`.
pub open spec fn slug_char(c: char) -> char {
    if c == ' ' {
        '-'
    } else {
        ascii_lower(c)
    }
}

/// The id part derived from a station name.
pub open spec fn slug(name: Seq<char>) -> Seq<char> {
    name.map_values(|c: char| slug_char(c))
}

/// The id of a station named `name` (already trimmed).
pub open spec fn station_id_for(name: Seq<char>) -> Seq<char> {
    "station-"@ + slug(name)
}

/// The station `Station::new` builds from valid input.
pub open spec fn station_from_input(name: Seq<char>, url: Seq<char>, genre: Seq<char>) -> StationView {
    StationView {
        id: station_id_for(trim(name)),
        name: trim(name),
        url: trim(url),
        genre: trim(genre),
    }
}

/// A station view that `Station::new` could have produced.
pub open spec fn is_well_formed(s: StationView) -> bool {
    valid_station_input(s.name, s.url, s.genre) && s == station_from_input(s.name, s.url, s.genre)
}

fn slugged(name: &[char]) -> (r: Vec<char>)
    ensures
        r@ == slug(name@),
{
    let mut v: Vec<char> = Vec::new();
    let mut i: usize = 0;
    while i < name.len()
        invariant
            i <= name@.len(),
            v@ == slug(name@.subrange(0, i as int)),
        decreases name.len() - i,
    {
        let c = name[i];
        let d = if c == ' ' {
            '-'
        } else {
            ascii_lower_char(c)
        };
        v.push(d);
        i = i + 1;
        assert(slug(name@.subrange(0, i as int)) =~= slug(name@.subrange(0, i - 1)).push(
            slug_char(name@[i - 1]),
        ));
    }
    assert(name@.subrange(0, name@.len() as int) =~= name@);
    v
}

impl Station {
    /// Builds a station from user input: each field is trimmed, all three
    /// must be non-empty, the url must be http(s), and the id is derived
    /// from the name.
    pub fn new(name: &str, url: &str, genre: &str) -> (r: Result<Station, String>)
        ensures
            r is Ok <==> valid_station_input(name@, url@, genre@),
            match r {
                Ok(s) => s@ == station_from_input(name@, url@, genre@),
                Err(e) => if !fields_present(name@, url@, genre@) {
                    e@ == missing_fields_message()
                } else {
                    e@ == bad_scheme_message()
                },
            },
    {
        let n = trimmed_str(name);
        let u = trimmed_str(url);
        let g = trimmed_str(genre);
        if n.len() == 0 || u.len() == 0 || g.len() == 0 {
            return Err("station name, url, and genre must all be set".to_owned());
        }
        if !starts_with_str(&u, "http://") && !starts_with_str(&u, "https://") {
            return Err("station url must use http or https".to_owned());
        }
        let mut id = chars_of("station-");
        let s = slugged(&n);
        append_chars(&mut id, &s);
        Ok(
            Station {
                id: StationId::from_string(string_from_chars(&id)),
                name: string_from_chars(&n),
                url: string_from_chars(&u),
                genre: string_from_chars(&g),
            },
        )
    }
}

/// Building a station again from a built station's own fields gives the
/// same station: construction is idempotent.
pub proof fn lemma_station_new_idempotent(name: Seq<char>, url: Seq<char>, genre: Seq<char>)
    requires
        valid_station_input(name, url, genre),
    ensures
        ({
            let s = station_from_input(name, url, genre);
            valid_station_input(s.name, s.url, s.genre) && station_from_input(s.name, s.url, s.genre)
                == s
        }),
{
    lemma_trim_idempotent(name);
    lemma_trim_idempotent(url);
    lemma_trim_idempotent(genre);
}

/// Every station that `Station::new` builds is well formed.
pub proof fn lemma_new_station_well_formed(name: Seq<char>, url: Seq<char>, genre: Seq<char>)
    requires
        valid_station_input(name, url, genre),
    ensures
        is_well_formed(station_from_input(name, url, genre)),
{
    lemma_station_new_idempotent(name, url, genre);
}

/// A station's id depends on its trimmed name alone, ignoring ASCII case.
pub proof fn lemma_station_id_ignores_case(a: Seq<char>, b: Seq<char>)
    requires
        a.len() == b.len(),
        forall|i: int| 0 <= i < a.len() ==> ascii_lower(#[trigger] a[i]) == ascii_lower(b[i]),
    ensures
        station_id_for(a) == station_id_for(b),
{
    assert(slug(a) =~= slug(b));
}

} // verus!
