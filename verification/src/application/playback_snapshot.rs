//! A point-in-time snapshot of playback, and its JSON line.
use vstd::prelude::*;

use crate::domain::station::{Station, StationView};
use crate::infrastructure::json::{json_string, station_json, station_to_json, string_to_json};
use crate::infrastructure::output::OutputError;
use crate::text::{append_str, chars_of, decimal, push_decimal, string_from_chars};

verus! {

/// A point-in-time snapshot of playback state.
#[derive(Debug, Clone, PartialEq, Eq)]
pub struct PlaybackSnapshot {
    /// Human-readable state label: "stopped", "playing", or "buffering".
    pub state: String,
    /// The station associated with this snapshot, if one is active.
    pub station: Option<Station>,
    /// Number of stations available in the repository at snapshot time.
    pub stations_available: usize,
}

/// The JSON object of a snapshot from its encoded state, its station's
/// object (`None` for no station) and its station count.
pub open spec fn snapshot_text(state: Seq<char>, station: Option<Seq<char>>, count: nat) -> Seq<char> {
    "{\"state\":"@ + state + ",\"station\":"@ + match station {
        Some(s) => s,
        None => "null"@,
    } + ",\"stations_available\":"@ + decimal(count) + "}"@
}

/// The optional station's view.
pub open spec fn opt_station(s: Option<Station>) -> Option<StationView> {
    match s {
        Some(st) => Some(st@),
        None => None,
    }
}

/// The JSON line of a snapshot, if its texts encode.
pub open spec fn snapshot_json(state: Seq<char>, station: Option<StationView>, count: nat) -> Option<
    Seq<char>,
> {
    match json_string(state) {
        Some(q) => match station {
            None => Some(snapshot_text(q, None, count)),
            Some(s) => match station_json(s) {
                Some(o) => Some(snapshot_text(q, Some(o), count)),
                None => None,
            },
        },
        None => None,
    }
}

/// The JSON object of a snapshot from its encoded parts.
pub fn snapshot_object(state: &str, station: Option<&str>, count: usize) -> (r: String)
    ensures
        r@ == snapshot_text(
            state@,
            match station {
                Some(s) => Some(s@),
                None => None,
            },
            count as nat,
        ),
{
    let mut v = chars_of("{\"state\":");
    append_str(&mut v, state);
    append_str(&mut v, ",\"station\":");
    match station {
        Some(s) => append_str(&mut v, s),
        None => append_str(&mut v, "null"),
    }
    append_str(&mut v, ",\"stations_available\":");
    push_decimal(count as u64, &mut v);
    append_str(&mut v, "}");
    string_from_chars(&v)
}

impl PlaybackSnapshot {
    /// The snapshot as one compact JSON line.
    pub fn to_json(&self) -> (r: Result<String, OutputError>)
        ensures
            match snapshot_json(self.state@, opt_station(self.station), self.stations_available as nat) {
                Some(j) => r matches Ok(t) && t@ == j,
                None => r is Err,
            },
    {
        let failed = OutputError { message: "snapshot serialization failed".to_owned() };
        let state = match string_to_json(self.state.as_str()) {
            Some(q) => q,
            None => return Err(failed),
        };
        match &self.station {
            None => Ok(snapshot_object(state.as_str(), None, self.stations_available)),
            Some(s) => match station_to_json(s) {
                Some(o) => Ok(snapshot_object(state.as_str(), Some(o.as_str()), self.stations_available)),
                None => Err(failed),
            },
        }
    }
}

} // verus!
