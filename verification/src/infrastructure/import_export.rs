//! Playlist import (PLS, M3U) and export (M3U, JSON).
use vstd::prelude::*;

use crate::domain::repository::views;
use crate::domain::station::{
    station_from_input, valid_station_input, Station, StationView,
};
use crate::infrastructure::json::{lemma_stations_json_some, stations_json, stations_to_pretty_json};
use crate::text::{
    append_str, chars_of, find_char, has_prefix, index_of, last_index_of, lower,
    lowered, parse_u32, parse_u32_chars, rfind_char, same_as_str, split, split_chars,
    starts_with_str, string_from_chars, trim, trimmed, copy_range, lemma_index_of_unique,
    lemma_trim_fixed, is_space,
};

verus! {

// ── Shared rules ─────────────────────────────────────────────────────────────

/// The genre every imported station gets.
pub open spec fn imported_genre() -> Seq<char> {
    "imported"@
}

/// The name derived from a stream url: the part after the last `/`, cut at
/// the first `?`.
pub open spec fn name_from_url(url: Seq<char>) -> Seq<char> {
    let tail = match last_index_of(url, '/') {
        Some(i) => url.skip(i + 1),
        None => url,
    };
    match index_of(tail, '?') {
        Some(j) => tail.take(j),
        None => tail,
    }
}

/// The station an import entry named `name` at `url` becomes, if valid.
pub open spec fn imported_station(name: Seq<char>, url: Seq<char>) -> Option<StationView> {
    if valid_station_input(name, url, imported_genre()) {
        Some(station_from_input(name, url, imported_genre()))
    } else {
        None
    }
}

/// The present values of `s`, in order.
pub open spec fn somes(s: Seq<Option<StationView>>) -> Seq<StationView>
    decreases s.len(),
{
    if s.len() == 0 {
        Seq::empty()
    } else {
        match s.last() {
            Some(v) => somes(s.drop_last()).push(v),
            None => somes(s.drop_last()),
        }
    }
}

/// The characters of an optional text.
pub open spec fn opt_chars(o: Option<Vec<char>>) -> Option<Seq<char>> {
    match o {
        Some(v) => Some(v@),
        None => None,
    }
}

/// The lines of a playlist.
pub open spec fn playlist_lines(content: Seq<char>) -> Seq<Seq<char>> {
    split(content, '\n')
}

/// Derives a human-readable name from a stream url.
pub fn url_to_name(url: &str) -> (r: String)
    ensures
        r@ == name_from_url(url@),
{
    let u = chars_of(url);
    let r = name_from_chars(&u);
    string_from_chars(&r)
}

fn name_from_chars(u: &[char]) -> (r: Vec<char>)
    ensures
        r@ == name_from_url(u@),
{
    let n = u.len();
    let tail = match rfind_char(u, '/') {
        Some(i) => copy_range(u, i + 1, n),
        None => copy_range(u, 0, u.len()),
    };
    assert(u@.subrange(0, u@.len() as int) =~= u@);
    match find_char(&tail, '?') {
        Some(j) => copy_range(&tail, 0, j),
        None => tail,
    }
}

/// The station an entry named `name` at `url` becomes, if valid.
fn import_station(name: &[char], url: &[char]) -> (r: Option<Station>)
    ensures
        match r {
            Some(s) => imported_station(name@, url@) == Some(s@),
            None => imported_station(name@, url@) is None,
        },
{
    let n = string_from_chars(name);
    let u = string_from_chars(url);
    match Station::new(n.as_str(), u.as_str(), "imported") {
        Ok(s) => Some(s),
        Err(_) => None,
    }
}

// ── PLS ──────────────────────────────────────────────────────────────────────

/// A `<key><index>=<value>` line of a PLS playlist (as in `File1=...` or
/// `Title1=...`): its index and its trimmed, non-empty value.
pub open spec fn pls_entry(line: Seq<char>, key: Seq<char>) -> Option<(u32, Seq<char>)> {
    let t = trim(line);
    if has_prefix(t, key) {
        let rest = t.skip(key.len() as int);
        match index_of(rest, '=') {
            Some(eq) => match parse_u32(rest.take(eq)) {
                Some(idx) => if trim(rest.skip(eq + 1)).len() > 0 {
                    Some((idx, trim(rest.skip(eq + 1))))
                } else {
                    None
                },
                None => None,
            },
            None => None,
        }
    } else {
        None
    }
}

/// The `key` entries of the PLS lines `lines`, in line order.
pub open spec fn pls_entries(lines: Seq<Seq<char>>, key: Seq<char>) -> Seq<(u32, Seq<char>)>
    decreases lines.len(),
{
    if lines.len() == 0 {
        Seq::empty()
    } else {
        let rest = pls_entries(lines.drop_last(), key);
        match pls_entry(lines.last(), key) {
            Some(e) => rest.push(e),
            None => rest,
        }
    }
}

/// The value the entries give index `k`: the last one wins.
pub open spec fn pls_value(entries: Seq<(u32, Seq<char>)>, k: u32) -> Option<Seq<char>>
    decreases entries.len(),
{
    if entries.len() == 0 {
        None
    } else if entries.last().0 == k {
        Some(entries.last().1)
    } else {
        pls_value(entries.drop_last(), k)
    }
}

/// The indices from `lo` upwards that the entries give a value, ascending.
pub open spec fn pls_indices_from(entries: Seq<(u32, Seq<char>)>, lo: int) -> Seq<u32>
    decreases 0x1_0000_0000 - lo,
{
    if lo < 0 || lo > u32::MAX {
        Seq::empty()
    } else if pls_value(entries, lo as u32) is Some {
        seq![lo as u32] + pls_indices_from(entries, lo + 1)
    } else {
        pls_indices_from(entries, lo + 1)
    }
}

/// The station of PLS index `k`: its `File` url, named by its `Title` or
/// else after the url.
pub open spec fn pls_station(
    files: Seq<(u32, Seq<char>)>,
    titles: Seq<(u32, Seq<char>)>,
    k: u32,
) -> Option<StationView> {
    match pls_value(files, k) {
        Some(url) => {
            let name = match pls_value(titles, k) {
                Some(t) => t,
                None => name_from_url(url),
            };
            imported_station(name, url)
        },
        None => None,
    }
}

/// The stations a PLS playlist holds, by ascending index.
pub open spec fn pls_stations(content: Seq<char>) -> Seq<StationView> {
    let lines = playlist_lines(content);
    let files = pls_entries(lines, "File"@);
    let titles = pls_entries(lines, "Title"@);
    somes(pls_indices_from(files, 0).map_values(|k: u32| pls_station(files, titles, k)))
}

/// The views of PLS entries.
pub open spec fn entry_views(v: Seq<(u32, Vec<char>)>) -> Seq<(u32, Seq<char>)> {
    v.map_values(|e: (u32, Vec<char>)| (e.0, e.1@))
}

fn pls_line_entry(line: &[char], key: &str) -> (r: Option<(u32, Vec<char>)>)
    ensures
        match r {
            Some(e) => pls_entry(line@, key@) == Some((e.0, e.1@)),
            None => pls_entry(line@, key@) is None,
        },
{
    let t = trimmed(line);
    if !starts_with_str(&t, key) {
        return None;
    }
    let k = chars_of(key);
    let n = t.len();
    let rest = copy_range(&t, k.len(), n);
    assert(rest@ =~= t@.skip(key@.len() as int));
    let m = rest.len();
    match find_char(&rest, '=') {
        Some(eq) => {
            let digits = copy_range(&rest, 0, eq);
            assert(digits@ =~= rest@.take(eq as int));
            match parse_u32_chars(&digits) {
                Some(idx) => {
                    let after = copy_range(&rest, eq + 1, m);
                    assert(after@ =~= rest@.skip(eq + 1));
                    let v = trimmed(&after);
                    if v.len() > 0 {
                        Some((idx, v))
                    } else {
                        None
                    }
                },
                None => None,
            }
        },
        None => None,
    }
}

proof fn lemma_pls_value_tail(e: Seq<(u32, Seq<char>)>, k: u32, j: int)
    requires
        0 <= j <= e.len(),
        forall|m: int| j <= m < e.len() ==> (#[trigger] e[m]).0 != k,
    ensures
        pls_value(e, k) == pls_value(e.take(j), k),
    decreases e.len() - j,
{
    if j < e.len() {
        assert(e.drop_last().take(j) =~= e.take(j));
        assert(e[e.len() - 1].0 != k);
        lemma_pls_value_tail(e.drop_last(), k, j);
    } else {
        assert(e.take(j) =~= e);
    }
}

/// The value the entries give index `k`.
fn last_value(entries: &Vec<(u32, Vec<char>)>, k: u32) -> (r: Option<Vec<char>>)
    ensures
        opt_chars(r) == pls_value(entry_views(entries@), k),
{
    let ghost ev = entry_views(entries@);
    let mut j = entries.len();
    while j > 0
        invariant
            j <= entries@.len(),
            ev == entry_views(entries@),
            forall|m: int| j <= m < ev.len() ==> (#[trigger] ev[m]).0 != k,
        decreases j,
    {
        if entries[j - 1].0 == k {
            proof {
                lemma_pls_value_tail(ev, k, j as int);
                assert(ev.take(j as int).last() == ev[j - 1]);
            }
            return Some(copy_range(&entries[j - 1].1, 0, entries[j - 1].1.len()));
        }
        j = j - 1;
    }
    proof {
        lemma_pls_value_tail(ev, k, 0);
        assert(ev.take(0) =~= Seq::<(u32, Seq<char>)>::empty());
    }
    None
}

proof fn lemma_pls_value_some(e: Seq<(u32, Seq<char>)>, k: u32)
    ensures
        pls_value(e, k) is Some <==> exists|m: int| 0 <= m < e.len() && (#[trigger] e[m]).0 == k,
    decreases e.len(),
{
    if e.len() > 0 {
        lemma_pls_value_some(e.drop_last(), k);
        if e.last().0 != k {
            if exists|m: int| 0 <= m < e.len() && (#[trigger] e[m]).0 == k {
                let m = choose|m: int| 0 <= m < e.len() && (#[trigger] e[m]).0 == k;
                assert(e.drop_last()[m].0 == k);
            }
            if exists|m: int| 0 <= m < e.drop_last().len() && (#[trigger] e.drop_last()[m]).0 == k {
                let m = choose|m: int|
                    0 <= m < e.drop_last().len() && (#[trigger] e.drop_last()[m]).0 == k;
                assert(e[m].0 == k);
            }
        } else {
            assert(e[e.len() - 1].0 == k);
        }
    }
}

proof fn lemma_pls_indices_skip(e: Seq<(u32, Seq<char>)>, lo: int, hi: int)
    requires
        0 <= lo <= hi <= 0x1_0000_0000,
        forall|k: u32| lo <= k < hi ==> #[trigger] pls_value(e, k) is None,
    ensures
        pls_indices_from(e, lo) == pls_indices_from(e, hi),
    decreases hi - lo,
{
    if lo < hi {
        lemma_pls_indices_skip(e, lo + 1, hi);
    }
}

/// The smallest index at or above `lo` that an entry has.
fn next_index(entries: &Vec<(u32, Vec<char>)>, lo: u64) -> (r: Option<u32>)
    ensures
        match r {
            Some(m) => lo <= m && pls_value(entry_views(entries@), m) is Some && forall|k: u32|
                lo <= k < m ==> #[trigger] pls_value(entry_views(entries@), k) is None,
            None => forall|k: u32| lo <= k ==> #[trigger] pls_value(entry_views(entries@), k) is None,
        },
{
    let ghost ev = entry_views(entries@);
    let mut best: Option<u32> = None;
    let mut i: usize = 0;
    while i < entries.len()
        invariant
            i <= entries@.len(),
            ev == entry_views(entries@),
            match best {
                Some(b) => lo <= b && (exists|m: int| 0 <= m < i && (#[trigger] ev[m]).0 == b)
                    && forall|m: int| 0 <= m < i && (#[trigger] ev[m]).0 >= lo ==> ev[m].0 >= b,
                None => forall|m: int| 0 <= m < i ==> (#[trigger] ev[m]).0 < lo,
            },
        decreases entries.len() - i,
    {
        let key = entries[i].0;
        assert(ev[i as int].0 == key);
        let ghost old_best = best;
        if key as u64 >= lo {
            match best {
                Some(b) => {
                    if key < b {
                        best = Some(key);
                    }
                },
                None => {
                    best = Some(key);
                },
            }
        }
        proof {
            match best {
                Some(b) => {
                    if best == Some(key) && key as u64 >= lo {
                        assert(ev[i as int].0 == b);
                    } else {
                        let m = choose|m: int| 0 <= m < i && (#[trigger] ev[m]).0 == b;
                        assert(0 <= m < i + 1 && ev[m].0 == b);
                    }
                },
                None => {},
            }
        }
        i = i + 1;
    }
    proof {
        match best {
            Some(b) => {
                lemma_pls_value_some(ev, b);
                assert forall|k: u32| lo <= k < b implies #[trigger] pls_value(ev, k) is None by {
                    lemma_pls_value_some(ev, k);
                    if exists|m: int| 0 <= m < ev.len() && (#[trigger] ev[m]).0 == k {
                        let m = choose|m: int| 0 <= m < ev.len() && (#[trigger] ev[m]).0 == k;
                        assert(ev[m].0 >= lo);
                    }
                }
            },
            None => {
                assert forall|k: u32| lo <= k implies #[trigger] pls_value(ev, k) is None by {
                    lemma_pls_value_some(ev, k);
                    if exists|m: int| 0 <= m < ev.len() && (#[trigger] ev[m]).0 == k {
                        let m = choose|m: int| 0 <= m < ev.len() && (#[trigger] ev[m]).0 == k;
                        assert(ev[m].0 < lo);
                    }
                }
            },
        }
    }
    best
}

/// Parses a PLS playlist: `File<n>=` lines give the urls and `Title<n>=`
/// lines the names (later lines win); stations come by ascending `<n>`, a
/// missing title is derived from the url, entries that do not make a valid
/// station are skipped, and every station gets the genre "imported".
pub fn parse_pls(content: &str) -> (r: Result<Vec<Station>, TransferError>)
    ensures
        r matches Ok(stations) && views(stations@) == pls_stations(content@),
{
    let chars = chars_of(content);
    let lines = split_chars(&chars, '\n');
    let ghost all = lines@.map_values(|l: Vec<char>| l@);
    let mut files: Vec<(u32, Vec<char>)> = Vec::new();
    let mut titles: Vec<(u32, Vec<char>)> = Vec::new();
    let mut i: usize = 0;
    while i < lines.len()
        invariant
            i <= lines@.len(),
            all == lines@.map_values(|l: Vec<char>| l@),
            entry_views(files@) == pls_entries(all.take(i as int), "File"@),
            entry_views(titles@) == pls_entries(all.take(i as int), "Title"@),
        decreases lines.len() - i,
    {
        proof {
            assert(all.take(i + 1).drop_last() =~= all.take(i as int));
            assert(all.take(i + 1).last() == lines@[i as int]@);
        }
        match pls_line_entry(&lines[i], "File") {
            Some(e) => {
                let ghost before = files@;
                files.push(e);
                assert(entry_views(files@) =~= entry_views(before).push((e.0, e.1@)));
            },
            None => {},
        }
        match pls_line_entry(&lines[i], "Title") {
            Some(e) => {
                let ghost before = titles@;
                titles.push(e);
                assert(entry_views(titles@) =~= entry_views(before).push((e.0, e.1@)));
            },
            None => {},
        }
        i = i + 1;
    }
    assert(all.take(lines@.len() as int) =~= all);
    let ghost fv = entry_views(files@);
    let ghost tv = entry_views(titles@);
    let ghost pick = |k: u32| pls_station(fv, tv, k);
    let mut out: Vec<Station> = Vec::new();
    let mut lo: u64 = 0;
    let ghost mut done: Seq<u32> = Seq::empty();
    assert(done + pls_indices_from(fv, 0) =~= pls_indices_from(fv, 0));
    assert(done.map_values(pick) =~= Seq::<Option<StationView>>::empty());
    assert(views(out@) =~= Seq::<StationView>::empty());
    loop
        invariant
            lo <= 0x1_0000_0000,
            fv == entry_views(files@),
            tv == entry_views(titles@),
            pick == (|k: u32| pls_station(fv, tv, k)),
            fv == pls_entries(playlist_lines(content@), "File"@),
            tv == pls_entries(playlist_lines(content@), "Title"@),
            pls_indices_from(fv, 0) == done + pls_indices_from(fv, lo as int),
            views(out@) == somes(done.map_values(pick)),
        decreases 0x1_0000_0000 - lo,
    {
        match next_index(&files, lo) {
            None => {
                proof {
                    lemma_pls_indices_skip(fv, lo as int, 0x1_0000_0000);
                    assert(done + pls_indices_from(fv, lo as int) =~= done);
                }
                return Ok(out);
            },
            Some(m) => {
                proof {
                    lemma_pls_indices_skip(fv, lo as int, m as int);
                    assert(pls_indices_from(fv, m as int) == seq![m] + pls_indices_from(
                        fv,
                        m + 1,
                    ));
                    assert(done + (seq![m] + pls_indices_from(fv, m + 1)) =~= done.push(m)
                        + pls_indices_from(fv, m + 1));
                    assert(done.push(m).map_values(pick) =~= done.map_values(pick).push(pick(m)));
                }
                let url = match last_value(&files, m) {
                    Some(u) => u,
                    None => {
                        assert(false);
                        return Ok(out);
                    },
                };
                let name = match last_value(&titles, m) {
                    Some(t) => t,
                    None => name_from_chars(&url),
                };
                assert(pick(m) == imported_station(name@, url@));
                let ghost picked = done.map_values(pick);
                assert(done.map_values(pick).push(pick(m)).drop_last() =~= picked);
                match import_station(&name, &url) {
                    Some(s) => {
                        let ghost before = out@;
                        out.push(s);
                        assert(views(out@) =~= views(before).push(s@));
                    },
                    None => {},
                }
                proof {
                    done = done.push(m);
                }
                lo = m as u64 + 1;
            },
        }
    }
}

// ── M3U ──────────────────────────────────────────────────────────────────────

/// The name an `#EXTINF:` line announces for the next url, if it has one.
pub open spec fn extinf_title(info: Seq<char>) -> Option<Seq<char>> {
    match index_of(info, ',') {
        Some(c) => if trim(info.skip(c + 1)).len() > 0 {
            Some(trim(info.skip(c + 1)))
        } else {
            None
        },
        None => None,
    }
}

/// The stations of the M3U lines `lines`, with `pending` the name announced
/// for the next url.
pub open spec fn m3u_from(lines: Seq<Seq<char>>, pending: Option<Seq<char>>) -> Seq<StationView>
    decreases lines.len(),
{
    if lines.len() == 0 {
        Seq::empty()
    } else {
        let t = trim(lines[0]);
        let rest = lines.drop_first();
        if t.len() == 0 || t == "#EXTM3U"@ {
            m3u_from(rest, pending)
        } else if has_prefix(t, "#EXTINF:"@) {
            match extinf_title(t.skip(8)) {
                Some(title) => m3u_from(rest, Some(title)),
                None => m3u_from(rest, pending),
            }
        } else if has_prefix(t, "#"@) {
            m3u_from(rest, pending)
        } else {
            let name = match pending {
                Some(n) => n,
                None => name_from_url(t),
            };
            match imported_station(name, t) {
                Some(s) => seq![s] + m3u_from(rest, None),
                None => m3u_from(rest, None),
            }
        }
    }
}

/// The stations an M3U playlist holds.
pub open spec fn m3u_stations(content: Seq<char>) -> Seq<StationView> {
    m3u_from(playlist_lines(content), None)
}

fn extinf_title_of(info: &[char]) -> (r: Option<Vec<char>>)
    ensures
        match r {
            Some(t) => extinf_title(info@) == Some(t@),
            None => extinf_title(info@) is None,
        },
{
    let n = info.len();
    match find_char(info, ',') {
        Some(c) => {
            let after = copy_range(info, c + 1, n);
            assert(after@ =~= info@.skip(c + 1));
            let title = trimmed(&after);
            if title.len() > 0 {
                Some(title)
            } else {
                None
            }
        },
        None => None,
    }
}

/// Parses an M3U or M3U8 playlist. `#EXTINF` titles name the url that
/// follows; without one the name comes from the url. Entries that do not
/// make a valid station are skipped; every station gets the genre
/// "imported".
pub fn parse_m3u(content: &str) -> (r: Result<Vec<Station>, TransferError>)
    ensures
        r matches Ok(stations) && views(stations@) == m3u_stations(content@),
{
    let chars = chars_of(content);
    let lines = split_chars(&chars, '\n');
    let ghost all = lines@.map_values(|l: Vec<char>| l@);
    let mut out: Vec<Station> = Vec::new();
    let mut pending: Option<Vec<char>> = None;
    let mut i: usize = 0;
    assert(all.skip(0) =~= all);
    assert(views(out@) + m3u_stations(content@) =~= m3u_stations(content@));
    while i < lines.len()
        invariant
            i <= lines@.len(),
            all == lines@.map_values(|l: Vec<char>| l@),
            all == playlist_lines(content@),
            views(out@) + m3u_from(all.skip(i as int), opt_chars(pending)) == m3u_stations(
                content@,
            ),
        decreases lines.len() - i,
    {
        let ghost rest = all.skip(i + 1);
        assert(all.skip(i as int).drop_first() =~= rest);
        assert(all.skip(i as int)[0] == lines@[i as int]@);
        let t = trimmed(&lines[i]);
        if t.len() == 0 || same_as_str(&t, "#EXTM3U") {
        } else if starts_with_str(&t, "#EXTINF:") {
            proof {
                reveal_strlit("#EXTINF:");
            }
            let info = copy_range(&t, 8, t.len());
            assert(info@ =~= t@.skip(8));
            match extinf_title_of(&info) {
                Some(title) => {
                    pending = Some(title);
                },
                None => {},
            }
        } else if starts_with_str(&t, "#") {
        } else {
            let name = match pending {
                Some(p) => p,
                None => name_from_chars(&t),
            };
            pending = None;
            match import_station(&name, &t) {
                Some(s) => {
                    let ghost before = out@;
                    out.push(s);
                    assert(views(out@) =~= views(before).push(s@));
                    assert(views(before).push(s@) + m3u_from(rest, None) =~= views(before) + (
                    seq![s@] + m3u_from(rest, None)));
                },
                None => {},
            }
        }
        i = i + 1;
    }
    assert(all.skip(lines@.len() as int) =~= Seq::<Seq<char>>::empty());
    assert(views(out@) + Seq::<StationView>::empty() =~= views(out@));
    Ok(out)
}

/// The M3U entry of a station.
pub open spec fn m3u_entry(s: StationView) -> Seq<char> {
    "#EXTINF:-1,"@ + s.name + "\n"@ + s.url + "\n"@
}

/// The M3U entries of `stations`, in order.
pub open spec fn m3u_entries(stations: Seq<StationView>) -> Seq<char>
    decreases stations.len(),
{
    if stations.len() == 0 {
        Seq::empty()
    } else {
        m3u_entry(stations[0]) + m3u_entries(stations.drop_first())
    }
}

/// The Extended M3U playlist of `stations`.
pub open spec fn m3u_document(stations: Seq<StationView>) -> Seq<char> {
    "#EXTM3U\n"@ + m3u_entries(stations)
}

proof fn lemma_m3u_entries_push(stations: Seq<StationView>, s: StationView)
    ensures
        m3u_entries(stations.push(s)) == m3u_entries(stations) + m3u_entry(s),
    decreases stations.len(),
{
    if stations.len() == 0 {
        assert(stations.push(s).drop_first() =~= Seq::<StationView>::empty());
        assert(m3u_entries(Seq::<StationView>::empty()) =~= Seq::<char>::empty());
        assert(m3u_entries(stations.push(s)) =~= m3u_entry(s) + Seq::<char>::empty());
        assert(Seq::<char>::empty() + m3u_entry(s) =~= m3u_entry(s));
    } else {
        assert(stations.push(s).drop_first() =~= stations.drop_first().push(s));
        lemma_m3u_entries_push(stations.drop_first(), s);
        assert(m3u_entries(stations.push(s)) =~= m3u_entry(stations[0]) + (m3u_entries(
            stations.drop_first(),
        ) + m3u_entry(s)));
    }
}

/// Exports `stations` as an Extended M3U playlist.
pub fn export_to_m3u(stations: &[Station]) -> (r: String)
    ensures
        r@ == m3u_document(stations@.map_values(|s: Station| s@)),
{
    let ghost sv = stations@.map_values(|s: Station| s@);
    let mut out = chars_of("#EXTM3U\n");
    let mut i: usize = 0;
    while i < stations.len()
        invariant
            i <= stations@.len(),
            sv == stations@.map_values(|s: Station| s@),
            out@ == "#EXTM3U\n"@ + m3u_entries(sv.subrange(0, i as int)),
        decreases stations.len() - i,
    {
        let ghost before = out@;
        append_str(&mut out, "#EXTINF:-1,");
        append_str(&mut out, stations[i].name.as_str());
        append_str(&mut out, "\n");
        append_str(&mut out, stations[i].url.as_str());
        append_str(&mut out, "\n");
        proof {
            assert(sv.subrange(0, i + 1) =~= sv.subrange(0, i as int).push(sv[i as int]));
            lemma_m3u_entries_push(sv.subrange(0, i as int), sv[i as int]);
            assert(out@ =~= before + m3u_entry(sv[i as int]));
        }
        i = i + 1;
    }
    assert(sv.subrange(0, stations@.len() as int) =~= sv);
    string_from_chars(&out)
}

// ── Round trip ───────────────────────────────────────────────────────────────

/// A station whose name and url hold no line break.
pub open spec fn single_line(s: StationView) -> bool {
    (forall|i: int| 0 <= i < s.name.len() ==> s.name[i] != '\n') && (forall|i: int|
        0 <= i < s.url.len() ==> s.url[i] != '\n')
}

/// What a station becomes when it is imported back: same name and url,
/// genre "imported".
pub open spec fn reimported(s: StationView) -> StationView {
    station_from_input(s.name, s.url, imported_genre())
}

proof fn lemma_split_concat(a: Seq<char>, b: Seq<char>)
    requires
        forall|i: int| 0 <= i < a.len() ==> a[i] != '\n',
    ensures
        split(a + seq!['\n'] + b, '\n') == seq![a] + split(b, '\n'),
{
    let s = a + seq!['\n'] + b;
    lemma_index_of_unique(s, '\n', Some(a.len() as int));
    assert(s.take(a.len() as int) =~= a);
    assert(s.skip(a.len() as int + 1) =~= b);
}

proof fn lemma_no_space_ends(s: Seq<char>)
    requires
        s == trim(s),
        s.len() > 0,
    ensures
        !is_space(s[0]),
        !is_space(s.last()),
{
    crate::text::lemma_trim_shape(s);
}

proof fn lemma_m3u_entry_lines(s: StationView, rest: Seq<Seq<char>>, pending: Option<Seq<char>>)
    requires
        crate::domain::station::is_well_formed(s),
        single_line(s),
    ensures
        m3u_from(seq!["#EXTINF:-1,"@ + s.name, s.url] + rest, pending) == seq![reimported(s)]
            + m3u_from(rest, None),
{
    reveal_strlit("#EXTINF:-1,");
    reveal_strlit("#EXTINF:");
    reveal_strlit("#EXTM3U");
    reveal_strlit("#");
    reveal_strlit("http://");
    reveal_strlit("https://");
    reveal_strlit("imported");
    let head = "#EXTINF:-1,"@ + s.name;
    let lines = seq![head, s.url] + rest;
    lemma_no_space_ends(s.name);
    lemma_no_space_ends(s.url);
    assert(head[0] == '#');
    assert(head.last() == s.name.last());
    lemma_trim_fixed(head);
    assert(lines[0] == head);
    assert(lines.drop_first() =~= seq![s.url] + rest);
    assert(head[4] != "#EXTM3U"@[4]);
    assert(head.subrange(0, 8) =~= "#EXTINF:"@);
    let info = head.skip(8);
    assert(info =~= "-1,"@ + s.name) by {
        reveal_strlit("-1,");
    }
    reveal_strlit("-1,");
    lemma_index_of_unique(info, ',', Some(2));
    assert(info.skip(3) =~= s.name);
    assert(extinf_title(info) == Some(s.name));
    let second = seq![s.url] + rest;
    assert(second[0] == s.url);
    assert(second.drop_first() =~= rest);
    lemma_trim_fixed(s.url);
    assert(s.url[0] == 'h') by {
        if has_prefix(s.url, "http://"@) {
            assert(s.url.subrange(0, 7)[0] == s.url[0]);
        } else {
            assert(s.url.subrange(0, 8)[0] == s.url[0]);
        }
    }
    assert(s.url != "#EXTM3U"@);
    assert(!has_prefix(s.url, "#EXTINF:"@)) by {
        if has_prefix(s.url, "#EXTINF:"@) {
            assert(s.url.subrange(0, 8)[0] == s.url[0]);
        }
    }
    assert(!has_prefix(s.url, "#"@)) by {
        if has_prefix(s.url, "#"@) {
            assert(s.url.subrange(0, 1)[0] == s.url[0]);
        }
    }
    lemma_trim_fixed("imported"@);
    assert(valid_station_input(s.name, s.url, imported_genre()));
    assert(head != "#EXTM3U"@) by {
        if head == "#EXTM3U"@ {
            assert(head[4] == "#EXTM3U"@[4]);
        }
    }
    assert(trim(lines[0]) == head);
    assert(has_prefix(head, "#EXTINF:"@));
    assert(m3u_from(lines, pending) == m3u_from(second, Some(s.name)));
    assert(trim(second[0]) == s.url);
    assert(imported_station(s.name, s.url) == Some(reimported(s)));
    assert(m3u_from(second, Some(s.name)) == seq![reimported(s)] + m3u_from(rest, None));
}

proof fn lemma_m3u_entries_lines(stations: Seq<StationView>, pending: Option<Seq<char>>)
    requires
        forall|i: int|
            0 <= i < stations.len() ==> crate::domain::station::is_well_formed(
                #[trigger] stations[i],
            ) && single_line(stations[i]),
    ensures
        m3u_from(split(m3u_entries(stations), '\n'), pending) == stations.map_values(
            |s: StationView| reimported(s),
        ),
    decreases stations.len(),
{
    reveal_strlit("\n");
    reveal_strlit("#EXTINF:-1,");
    if stations.len() == 0 {
        let e = m3u_entries(stations);
        assert(e =~= Seq::<char>::empty());
        lemma_index_of_unique(e, '\n', None);
        assert(split(e, '\n') == seq![e]);
        let lines = seq![e];
        assert(lines.drop_first() =~= Seq::<Seq<char>>::empty());
        assert(trim(e) =~= Seq::<char>::empty());
        assert(lines[0] == e);
        assert(m3u_from(lines.drop_first(), pending) == Seq::<StationView>::empty());
        assert(m3u_from(lines, pending) == m3u_from(lines.drop_first(), pending));
        assert(stations.map_values(|s: StationView| reimported(s)) =~= Seq::<StationView>::empty());
    } else {
        let s = stations[0];
        let tail = stations.drop_first();
        assert forall|i: int| 0 <= i < tail.len() implies crate::domain::station::is_well_formed(
            #[trigger] tail[i],
        ) && single_line(tail[i]) by {
            assert(tail[i] == stations[i + 1]);
        }
        lemma_m3u_entries_lines(tail, None);
        let head = "#EXTINF:-1,"@ + s.name;
        assert forall|i: int| 0 <= i < head.len() implies head[i] != '\n' by {
            if i >= 11 {
                assert(head[i] == s.name[i - 11]);
            }
        }
        let rest_text = m3u_entries(tail);
        assert(m3u_entries(stations) =~= head + seq!['\n'] + (s.url + seq!['\n'] + rest_text));
        lemma_split_concat(head, s.url + seq!['\n'] + rest_text);
        lemma_split_concat(s.url, rest_text);
        let rest_lines = split(rest_text, '\n');
        assert(seq![head] + (seq![s.url] + rest_lines) =~= seq![head, s.url] + rest_lines);
        lemma_m3u_entry_lines(s, rest_lines, pending);
        assert(stations.map_values(|v: StationView| reimported(v)) =~= seq![reimported(s)]
            + tail.map_values(|v: StationView| reimported(v)));
    }
}

/// Importing an exported M3U playlist gives back its stations, each with
/// genre "imported", provided the stations are ones `Station::new` builds
/// and their names and urls hold no line break.
pub proof fn lemma_m3u_round_trip(stations: Seq<StationView>)
    requires
        forall|i: int|
            0 <= i < stations.len() ==> crate::domain::station::is_well_formed(
                #[trigger] stations[i],
            ) && single_line(stations[i]),
    ensures
        m3u_stations(m3u_document(stations)) == stations.map_values(|s: StationView| reimported(s)),
{
    reveal_strlit("#EXTM3U\n");
    reveal_strlit("#EXTM3U");
    let doc = m3u_document(stations);
    let header = "#EXTM3U"@;
    assert(doc =~= header + seq!['\n'] + m3u_entries(stations));
    lemma_split_concat(header, m3u_entries(stations));
    let lines = split(doc, '\n');
    assert(lines[0] == header);
    assert(lines.drop_first() == split(m3u_entries(stations), '\n'));
    lemma_trim_fixed(header);
    lemma_m3u_entries_lines(stations, None);
}

// ── Errors and formats ───────────────────────────────────────────────────────

/// Why an import or export failed.
#[derive(Debug, Clone, PartialEq, Eq)]
pub enum TransferError {
    /// The file extension (lowered) names no import format.
    UnsupportedImport(String),
    /// The file extension (lowered) names no export format.
    UnsupportedExport(String),
    /// Reading, writing or decoding failed.
    Failed(String),
}

impl TransferError {
    /// The text a user is shown for the error.
    pub open spec fn message_view(&self) -> Seq<char> {
        match self {
            TransferError::UnsupportedImport(ext) => "unsupported import format '."@ + ext@
                + "'; expected pls, m3u, or json"@,
            TransferError::UnsupportedExport(ext) => "unsupported export format '."@ + ext@
                + "'; expected json or m3u"@,
            TransferError::Failed(m) => m@,
        }
    }

    /// The text a user is shown for the error.
    pub fn message(&self) -> (r: String)
        ensures
            r@ == self.message_view(),
    {
        match self {
            TransferError::UnsupportedImport(ext) => {
                let mut v = chars_of("unsupported import format '.");
                append_str(&mut v, ext.as_str());
                append_str(&mut v, "'; expected pls, m3u, or json");
                string_from_chars(&v)
            },
            TransferError::UnsupportedExport(ext) => {
                let mut v = chars_of("unsupported export format '.");
                append_str(&mut v, ext.as_str());
                append_str(&mut v, "'; expected json or m3u");
                string_from_chars(&v)
            },
            TransferError::Failed(m) => m.clone(),
        }
    }
}

/// The playlist formats that can be imported.
#[derive(Debug, Clone, Copy, PartialEq, Eq)]
pub enum ImportFormat {
    Pls,
    M3u,
    Json,
}

/// The formats stations can be exported to.
#[derive(Debug, Clone, Copy, PartialEq, Eq)]
pub enum ExportFormat {
    Json,
    M3u,
}

/// The import format a file extension names, ignoring ASCII case.
pub open spec fn import_format_of(ext: Seq<char>) -> Option<ImportFormat> {
    let e = lower(ext);
    if e == "pls"@ {
        Some(ImportFormat::Pls)
    } else if e == "m3u"@ || e == "m3u8"@ {
        Some(ImportFormat::M3u)
    } else if e == "json"@ {
        Some(ImportFormat::Json)
    } else {
        None
    }
}

/// The export format a file extension names, ignoring ASCII case.
pub open spec fn export_format_of(ext: Seq<char>) -> Option<ExportFormat> {
    let e = lower(ext);
    if e == "json"@ {
        Some(ExportFormat::Json)
    } else if e == "m3u"@ || e == "m3u8"@ {
        Some(ExportFormat::M3u)
    } else {
        None
    }
}

/// The import format for a file extension (`""` when the file has none).
pub fn import_format_for_extension(ext: &str) -> (r: Result<ImportFormat, TransferError>)
    ensures
        match import_format_of(ext@) {
            Some(f) => r == Ok::<ImportFormat, TransferError>(f),
            None => r matches Err(TransferError::UnsupportedImport(e)) && e@ == lower(ext@),
        },
{
    let c = chars_of(ext);
    let e = lowered(&c);
    if same_as_str(&e, "pls") {
        Ok(ImportFormat::Pls)
    } else if same_as_str(&e, "m3u") || same_as_str(&e, "m3u8") {
        Ok(ImportFormat::M3u)
    } else if same_as_str(&e, "json") {
        Ok(ImportFormat::Json)
    } else {
        Err(TransferError::UnsupportedImport(string_from_chars(&e)))
    }
}

/// The export format for a file extension (`""` when the file has none).
pub fn export_format_for_extension(ext: &str) -> (r: Result<ExportFormat, TransferError>)
    ensures
        match export_format_of(ext@) {
            Some(f) => r == Ok::<ExportFormat, TransferError>(f),
            None => r matches Err(TransferError::UnsupportedExport(e)) && e@ == lower(ext@),
        },
{
    let c = chars_of(ext);
    let e = lowered(&c);
    if same_as_str(&e, "json") {
        Ok(ExportFormat::Json)
    } else if same_as_str(&e, "m3u") || same_as_str(&e, "m3u8") {
        Ok(ExportFormat::M3u)
    } else {
        Err(TransferError::UnsupportedExport(string_from_chars(&e)))
    }
}

/// Exports `stations` as a pretty-printed JSON array.
pub fn export_to_json(stations: &[Station]) -> (r: Result<String, TransferError>)
    ensures
        r matches Ok(t) && stations_json(stations@.map_values(|s: Station| s@)) == Some(t@),
{
    proof {
        lemma_stations_json_some(stations@.map_values(|s: Station| s@));
    }
    match stations_to_pretty_json(stations) {
        Some(t) => Ok(t),
        None => Err(TransferError::Failed("station serialization failed".to_owned())),
    }
}

/// The export of `stations` in the format the file extension `ext` names.
pub fn export_content(stations: &[Station], ext: &str) -> (r: Result<String, TransferError>)
    ensures
        match export_format_of(ext@) {
            Some(ExportFormat::Json) => r matches Ok(t) && stations_json(
                stations@.map_values(|s: Station| s@),
            ) == Some(t@),
            Some(ExportFormat::M3u) => r matches Ok(t) && t@ == m3u_document(
                stations@.map_values(|s: Station| s@),
            ),
            None => r matches Err(TransferError::UnsupportedExport(e)) && e@ == lower(ext@),
        },
{
    match export_format_for_extension(ext) {
        Ok(ExportFormat::Json) => export_to_json(stations),
        Ok(ExportFormat::M3u) => Ok(export_to_m3u(stations)),
        Err(e) => Err(e),
    }
}

} // verus!
