//! The JSON documents the library writes: playback snapshots (one compact
//! line) and station lists (pretty-printed). String literals are encoded by
//! serde_json; the documents around them are assembled here.
use vstd::prelude::*;

use crate::domain::station::{Station, StationView};
use crate::text::{append_str, chars_of, string_from_chars};

verus! {

/// The lowercase hexadecimal digit of `n` (below 16).
pub open spec fn hex_digit(n: int) -> char {
    if n < 10 {
        (('0' as int) + n) as char
    } else {
        (('a' as int) + (n - 10)) as char
    }
}

/// How a character is written inside a JSON string literal: a quote and a
/// backslash are escaped by a backslash, the control characters with short
/// escapes (`\b`, `\t`, `\n`, `\f`, `\r`) by those, the other control
/// characters below 0x20 as `\u00XX` in lowercase hex, and every other
/// character as itself.
pub open spec fn json_escape_char(c: char) -> Seq<char> {
    if c == '"' {
        seq!['\\', '"']
    } else if c == '\\' {
        seq!['\\', '\\']
    } else if c == '\u{8}' {
        seq!['\\', 'b']
    } else if c == '\t' {
        seq!['\\', 't']
    } else if c == '\n' {
        seq!['\\', 'n']
    } else if c == '\u{c}' {
        seq!['\\', 'f']
    } else if c == '\r' {
        seq!['\\', 'r']
    } else if (c as int) < 0x20 {
        seq!['\\', 'u', '0', '0', hex_digit((c as int) / 16), hex_digit((c as int) % 16)]
    } else {
        seq![c]
    }
}

/// The characters of `s`, each escaped for a JSON string literal.
pub open spec fn json_escaped(s: Seq<char>) -> Seq<char>
    decreases s.len(),
{
    if s.len() == 0 {
        Seq::empty()
    } else {
        json_escaped(s.drop_last()) + json_escape_char(s.last())
    }
}

/// The JSON string literal serde_json writes for the text `s`: the escaped
/// characters between double quotes. Encoding a text never fails.
pub open spec fn json_string(s: Seq<char>) -> Option<Seq<char>> {
    Some(seq!['"'] + json_escaped(s) + seq!['"'])
}

/// The view of an optional string.
pub open spec fn opt_string(o: Option<String>) -> Option<Seq<char>> {
    match o {
        Some(s) => Some(s@),
        None => None,
    }
}

/// Encodes `s` as a JSON string literal with `serde_json::to_string`, which
/// writes the text between double quotes with the escapes of
/// `json_escape_char` into a byte buffer and so never fails on a `str`; a
/// refusal would become `None`.
#[verifier::external_body]
fn encode_json_string(s: &str) -> (r: Option<String>)
    ensures
        opt_string(r) == json_string(s@),
{
    serde_json::to_string(s).ok()
}

// ── Compact station objects and snapshots ────────────────────────────────────

/// The compact JSON object of a station whose fields encode as `id`,
/// `name`, `url` and `genre`.
pub open spec fn station_object_text(
    id: Seq<char>,
    name: Seq<char>,
    url: Seq<char>,
    genre: Seq<char>,
) -> Seq<char> {
    "{\"id\":"@ + id + ",\"name\":"@ + name + ",\"url\":"@ + url + ",\"genre\":"@ + genre + "}"@
}

/// The compact JSON object of a station, if all its fields encode.
pub open spec fn station_json(s: StationView) -> Option<Seq<char>> {
    match (json_string(s.id), json_string(s.name), json_string(s.url), json_string(s.genre)) {
        (Some(i), Some(n), Some(u), Some(g)) => Some(station_object_text(i, n, u, g)),
        _ => None,
    }
}

/// The compact JSON object of a station from its encoded fields.
pub fn station_object(id: &str, name: &str, url: &str, genre: &str) -> (r: String)
    ensures
        r@ == station_object_text(id@, name@, url@, genre@),
{
    let mut v = chars_of("{\"id\":");
    append_str(&mut v, id);
    append_str(&mut v, ",\"name\":");
    append_str(&mut v, name);
    append_str(&mut v, ",\"url\":");
    append_str(&mut v, url);
    append_str(&mut v, ",\"genre\":");
    append_str(&mut v, genre);
    append_str(&mut v, "}");
    string_from_chars(&v)
}

/// Encodes the fields of `station` as JSON string literals.
fn encode_fields(station: &Station) -> (r: Option<(String, String, String, String)>)
    ensures
        match r {
            Some(f) => json_string(station.id@) == Some(f.0@) && json_string(station.name@) == Some(
                f.1@,
            ) && json_string(station.url@) == Some(f.2@) && json_string(station.genre@) == Some(
                f.3@,
            ),
            None => json_string(station.id@) is None || json_string(station.name@) is None
                || json_string(station.url@) is None || json_string(station.genre@) is None,
        },
{
    let i = match encode_json_string(station.id.as_str()) {
        Some(x) => x,
        None => return None,
    };
    let n = match encode_json_string(station.name.as_str()) {
        Some(x) => x,
        None => return None,
    };
    let u = match encode_json_string(station.url.as_str()) {
        Some(x) => x,
        None => return None,
    };
    let g = match encode_json_string(station.genre.as_str()) {
        Some(x) => x,
        None => return None,
    };
    Some((i, n, u, g))
}

/// The compact JSON object of `station`, if all its fields encode.
pub fn station_to_json(station: &Station) -> (r: Option<String>)
    ensures
        opt_string(r) == station_json(station@),
{
    match encode_fields(station) {
        Some((i, n, u, g)) => Some(station_object(i.as_str(), n.as_str(), u.as_str(), g.as_str())),
        None => None,
    }
}

/// Encodes `text` as a JSON string literal.
pub fn string_to_json(text: &str) -> (r: Option<String>)
    ensures
        opt_string(r) == json_string(text@),
{
    encode_json_string(text)
}

// ── Pretty-printed station lists ─────────────────────────────────────────────

/// The pretty-printed JSON object of a station (as an element of a
/// top-level array) whose fields encode as `id`, `name`, `url`, `genre`.
pub open spec fn pretty_station_text(
    id: Seq<char>,
    name: Seq<char>,
    url: Seq<char>,
    genre: Seq<char>,
) -> Seq<char> {
    "{\n    \"id\": "@ + id + ",\n    \"name\": "@ + name + ",\n    \"url\": "@ + url
        + ",\n    \"genre\": "@ + genre + "\n  }"@
}

/// The pretty-printed JSON object of a station, if all its fields encode.
pub open spec fn pretty_station_json(s: StationView) -> Option<Seq<char>> {
    match (json_string(s.id), json_string(s.name), json_string(s.url), json_string(s.genre)) {
        (Some(i), Some(n), Some(u), Some(g)) => Some(pretty_station_text(i, n, u, g)),
        _ => None,
    }
}

/// The elements `items` separated as in a pretty-printed array.
pub open spec fn pretty_elements(items: Seq<Seq<char>>) -> Seq<char>
    decreases items.len(),
{
    if items.len() == 0 {
        Seq::empty()
    } else if items.len() == 1 {
        items[0]
    } else {
        pretty_elements(items.drop_last()) + ",\n  "@ + items.last()
    }
}

/// A pretty-printed array of the already encoded `items`.
pub open spec fn pretty_array_text(items: Seq<Seq<char>>) -> Seq<char> {
    if items.len() == 0 {
        "[]"@
    } else {
        "[\n  "@ + pretty_elements(items) + "\n]"@
    }
}

/// The encoded objects of `stations`, if every field of every station
/// encodes.
pub open spec fn pretty_station_objects(stations: Seq<StationView>) -> Option<Seq<Seq<char>>>
    decreases stations.len(),
{
    if stations.len() == 0 {
        Some(Seq::empty())
    } else {
        match (pretty_station_objects(stations.drop_last()), pretty_station_json(stations.last())) {
            (Some(objects), Some(o)) => Some(objects.push(o)),
            _ => None,
        }
    }
}

/// The pretty-printed JSON array of `stations`, if everything encodes.
pub open spec fn stations_json(stations: Seq<StationView>) -> Option<Seq<char>> {
    match pretty_station_objects(stations) {
        Some(objects) => Some(pretty_array_text(objects)),
        None => None,
    }
}

/// Every station list encodes: its pretty-printed JSON array always exists.
pub proof fn lemma_stations_json_some(stations: Seq<StationView>)
    ensures
        stations_json(stations) is Some,
    decreases stations.len(),
{
    if stations.len() > 0 {
        lemma_stations_json_some(stations.drop_last());
    }
}

/// The pretty-printed JSON object of a station from its encoded fields.
pub fn pretty_station_object(id: &str, name: &str, url: &str, genre: &str) -> (r: String)
    ensures
        r@ == pretty_station_text(id@, name@, url@, genre@),
{
    let mut v = chars_of("{\n    \"id\": ");
    append_str(&mut v, id);
    append_str(&mut v, ",\n    \"name\": ");
    append_str(&mut v, name);
    append_str(&mut v, ",\n    \"url\": ");
    append_str(&mut v, url);
    append_str(&mut v, ",\n    \"genre\": ");
    append_str(&mut v, genre);
    append_str(&mut v, "\n  }");
    string_from_chars(&v)
}

/// A pretty-printed array of the already encoded `items`.
pub fn pretty_array(items: &[String]) -> (r: String)
    ensures
        r@ == pretty_array_text(items@.map_values(|s: String| s@)),
{
    let ghost iv = items@.map_values(|s: String| s@);
    if items.len() == 0 {
        return "[]".to_owned();
    }
    let mut v = chars_of("[\n  ");
    append_str(&mut v, items[0].as_str());
    assert(iv.take(1).len() == 1);
    let mut i: usize = 1;
    while i < items.len()
        invariant
            1 <= i <= items@.len(),
            iv == items@.map_values(|s: String| s@),
            v@ == "[\n  "@ + pretty_elements(iv.take(i as int)),
        decreases items.len() - i,
    {
        append_str(&mut v, ",\n  ");
        append_str(&mut v, items[i].as_str());
        assert(iv.take(i + 1).drop_last() =~= iv.take(i as int));
        assert(v@ =~= "[\n  "@ + (pretty_elements(iv.take(i as int)) + ",\n  "@ + iv[i as int]));
        i = i + 1;
    }
    append_str(&mut v, "\n]");
    assert(iv.take(items@.len() as int) =~= iv);
    string_from_chars(&v)
}

/// The pretty-printed JSON array of `stations`, if every field encodes.
pub fn stations_to_pretty_json(stations: &[Station]) -> (r: Option<String>)
    ensures
        opt_string(r) == stations_json(stations@.map_values(|s: Station| s@)),
{
    let ghost sv = stations@.map_values(|s: Station| s@);
    let mut objects: Vec<String> = Vec::new();
    let mut i: usize = 0;
    while i < stations.len()
        invariant
            i <= stations@.len(),
            sv == stations@.map_values(|s: Station| s@),
            pretty_station_objects(sv.take(i as int)) == Some(objects@.map_values(|s: String| s@)),
        decreases stations.len() - i,
    {
        assert(sv.take(i + 1).drop_last() =~= sv.take(i as int));
        assert(sv.take(i + 1).last() == stations@[i as int]@);
        match encode_fields(&stations[i]) {
            Some((id, n, u, g)) => {
                let o = pretty_station_object(id.as_str(), n.as_str(), u.as_str(), g.as_str());
                let ghost before = objects@;
                objects.push(o);
                assert(objects@.map_values(|s: String| s@) =~= before.map_values(|s: String| s@).push(
                    o@,
                ));
            },
            None => {
                proof {
                    lemma_objects_fail(sv, i as int);
                    assert(sv.take(stations@.len() as int) =~= sv);
                }
                return None;
            },
        }
        i = i + 1;
    }
    assert(sv.take(stations@.len() as int) =~= sv);
    Some(pretty_array(&objects))
}

proof fn lemma_objects_fail(sv: Seq<StationView>, i: int)
    requires
        0 <= i < sv.len(),
        pretty_station_json(sv[i]) is None,
    ensures
        forall|j: int| i < j <= sv.len() ==> pretty_station_objects(#[trigger] sv.take(j)) is None,
{
    assert forall|j: int| i < j <= sv.len() implies pretty_station_objects(
        #[trigger] sv.take(j),
    ) is None by {
        lemma_objects_fail_at(sv, i, j);
    }
}

proof fn lemma_objects_fail_at(sv: Seq<StationView>, i: int, j: int)
    requires
        0 <= i < j <= sv.len(),
        pretty_station_json(sv[i]) is None,
    ensures
        pretty_station_objects(sv.take(j)) is None,
    decreases j,
{
    assert(sv.take(j).drop_last() =~= sv.take(j - 1));
    if j - 1 > i {
        lemma_objects_fail_at(sv, i, j - 1);
    } else {
        assert(sv.take(j).last() == sv[i]);
    }
}

} // verus!
