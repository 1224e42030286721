//! What the command line decides and prints, apart from reading arguments
//! and writing to the terminal.
use vstd::prelude::*;

use crate::domain::station::{
    bad_scheme_message, fields_present, missing_fields_message, station_from_input,
    valid_station_input, Station,
};
use crate::text::{
    append_str, chars_of, copy_range, decimal, last_index_of, push_decimal, rfind_char,
    string_from_chars,
};

verus! {

/// The name `--add-station` gives a url when `--name` is absent: the part
/// after its last `/`.
pub open spec fn default_station_name(url: Seq<char>) -> Seq<char> {
    match last_index_of(url, '/') {
        Some(i) => url.skip(i + 1),
        None => url,
    }
}

/// The name `--add-station` gives `url` when `--name` is absent.
pub fn default_name_for_url(url: &str) -> (r: String)
    ensures
        r@ == default_station_name(url@),
{
    let u = chars_of(url);
    let n = u.len();
    match rfind_char(&u, '/') {
        Some(i) => {
            let tail = copy_range(&u, i + 1, n);
            assert(tail@ =~= u@.skip(i + 1));
            string_from_chars(&tail)
        },
        None => url.to_owned(),
    }
}

/// The station `--add-station <url>` adds, named by `--name` or after the
/// url, of genre `--genre` or "imported".
pub fn station_from_arguments(url: &str, name: Option<&str>, genre: Option<&str>) -> (r: Result<
    Station,
    String,
>)
    ensures
        ({
            let n = match name {
                Some(n) => n@,
                None => default_station_name(url@),
            };
            let g = match genre {
                Some(g) => g@,
                None => "imported"@,
            };
            &&& r is Ok <==> valid_station_input(n, url@, g)
            &&& match r {
                Ok(s) => s@ == station_from_input(n, url@, g),
                Err(e) => if !fields_present(n, url@, g) {
                    e@ == missing_fields_message()
                } else {
                    e@ == bad_scheme_message()
                },
            }
        }),
{
    let n = match name {
        Some(n) => n.to_owned(),
        None => default_name_for_url(url),
    };
    let g = match genre {
        Some(g) => g.to_owned(),
        None => "imported".to_owned(),
    };
    Station::new(n.as_str(), url, g.as_str())
}

/// The line `--list` prints for a station: `name | genre | url`.
pub fn station_list_line(station: &Station) -> (r: String)
    ensures
        r@ == station.name@ + " | "@ + station.genre@ + " | "@ + station.url@,
{
    let mut v = chars_of(station.name.as_str());
    append_str(&mut v, " | ");
    append_str(&mut v, station.genre.as_str());
    append_str(&mut v, " | ");
    append_str(&mut v, station.url.as_str());
    string_from_chars(&v)
}

/// The line `--import` prints after adding `added` of `total` stations.
pub fn import_summary(added: usize, total: usize) -> (r: String)
    ensures
        r@ == "imported "@ + decimal(added as nat) + " of "@ + decimal(total as nat)
            + " stations (duplicates skipped)"@,
{
    let mut v = chars_of("imported ");
    push_decimal(added as u64, &mut v);
    append_str(&mut v, " of ");
    push_decimal(total as u64, &mut v);
    append_str(&mut v, " stations (duplicates skipped)");
    string_from_chars(&v)
}

/// The line `--export` prints after writing `count` stations to `path`.
pub fn export_summary(count: usize, path: &str) -> (r: String)
    ensures
        r@ == "exported "@ + decimal(count as nat) + " stations to '"@ + path@ + "'"@,
{
    let mut v = chars_of("exported ");
    push_decimal(count as u64, &mut v);
    append_str(&mut v, " stations to '");
    append_str(&mut v, path);
    append_str(&mut v, "'");
    string_from_chars(&v)
}

} // verus!
