//! Stream metadata: titles announced by a stream, bitrates read off urls,
//! and how metadata is shown.
use vstd::prelude::*;

use crate::text::{
    all_digits, append_chars, append_str, chars_of, copy_range, decimal, digits_value, find_chars,
    find_seq, is_digit, lemma_capped_step, lemma_find_seq_unique, occurs_at, push_decimal, string_from_chars, trim, trimmed,
    trimmed_str,
};

verus! {

/// What is known about the stream a station is playing.
#[derive(Debug, Clone, Default, PartialEq, Eq)]
pub struct StationMetadata {
    pub title: Option<String>,
    pub artist: Option<String>,
    pub bitrate_kbps: Option<u32>,
}

/// Station metadata as character sequences.
pub struct MetadataView {
    pub title: Option<Seq<char>>,
    pub artist: Option<Seq<char>>,
    pub bitrate_kbps: Option<u32>,
}

/// The view of an optional string.
pub open spec fn opt_view(o: Option<String>) -> Option<Seq<char>> {
    match o {
        Some(s) => Some(s@),
        None => None,
    }
}

impl View for StationMetadata {
    type V = MetadataView;

    open spec fn view(&self) -> MetadataView {
        MetadataView {
            title: opt_view(self.title),
            artist: opt_view(self.artist),
            bitrate_kbps: self.bitrate_kbps,
        }
    }
}

/// `s`, if it is not empty.
pub open spec fn non_empty(s: Seq<char>) -> Option<Seq<char>> {
    if s.len() > 0 {
        Some(s)
    } else {
        None
    }
}

/// The metadata a stream title announces: `artist - title`, or a bare
/// title; nothing for a blank value.
pub open spec fn stream_title(value: Seq<char>) -> Option<MetadataView> {
    let t = trim(value);
    if t.len() == 0 {
        None
    } else {
        match find_seq(t, " - "@) {
            Some(i) => Some(
                MetadataView {
                    title: non_empty(trim(t.skip(i + 3))),
                    artist: non_empty(trim(t.take(i))),
                    bitrate_kbps: None,
                },
            ),
            None => Some(MetadataView { title: Some(t), artist: None, bitrate_kbps: None }),
        }
    }
}

fn non_empty_string(s: Vec<char>) -> (r: Option<String>)
    ensures
        opt_view(r) == non_empty(s@),
{
    if s.len() > 0 {
        Some(string_from_chars(&s))
    } else {
        None
    }
}

/// A stream title splits at the first ` - ` (space, hyphen, space) of its
/// trimmed text `t`: the artist is what comes before it and the title what
/// comes after, each trimmed (and absent when empty).
pub proof fn lemma_stream_title_splits_at_first_separator(value: Seq<char>, i: int)
    requires
        occurs_at(trim(value), " - "@, i),
        forall|j: int| 0 <= j < i ==> !#[trigger] occurs_at(trim(value), " - "@, j),
    ensures
        stream_title(value) matches Some(m) && m.artist == non_empty(trim(trim(value).take(i)))
            && m.title == non_empty(trim(trim(value).skip(i + 3))) && m.bitrate_kbps is None,
{
    reveal_strlit(" - ");
    lemma_find_seq_unique(trim(value), " - "@, Some(i));
}

/// A stream title whose trimmed text holds no ` - ` names no artist: the
/// whole trimmed text is the title (a hyphen without spaces around it
/// never splits).
pub proof fn lemma_stream_title_without_separator(value: Seq<char>)
    requires
        trim(value).len() > 0,
        forall|j: int| !#[trigger] occurs_at(trim(value), " - "@, j),
    ensures
        stream_title(value) matches Some(m) && m.artist is None && m.title == Some(trim(value))
            && m.bitrate_kbps is None,
{
    reveal_strlit(" - ");
    lemma_find_seq_unique(trim(value), " - "@, None);
}

/// Parses a stream title of the form `artist - title` (or a bare title).
pub fn parse_stream_title(value: &str) -> (r: Option<StationMetadata>)
    ensures
        match r {
            Some(m) => stream_title(value@) == Some(m@),
            None => stream_title(value@) is None,
        },
{
    let t = trimmed_str(value);
    if t.len() == 0 {
        return None;
    }
    let sep = chars_of(" - ");
    proof {
        reveal_strlit(" - ");
    }
    let n = t.len();
    match find_chars(&t, &sep) {
        Some(i) => {
            let artist = copy_range(&t, 0, i);
            let title = copy_range(&t, i + 3, n);
            assert(artist@ =~= t@.take(i as int));
            assert(title@ =~= t@.skip(i + 3));
            let title = trimmed(&title);
            let artist = trimmed(&artist);
            Some(
                StationMetadata {
                    title: non_empty_string(title),
                    artist: non_empty_string(artist),
                    bitrate_kbps: None,
                },
            )
        },
        None => Some(
            StationMetadata { title: Some(string_from_chars(&t)), artist: None, bitrate_kbps: None },
        ),
    }
}

/// The length of the run of digits `s` ends with.
pub open spec fn trailing_digits(s: Seq<char>) -> nat
    decreases s.len(),
{
    if s.len() > 0 && is_digit(s.last()) {
        trailing_digits(s.drop_last()) + 1
    } else {
        0
    }
}

/// A bitrate, in kbit/s, that a url may plausibly name.
pub open spec fn plausible_bitrate(v: nat) -> bool {
    8 <= v <= 1024
}

/// The bitrate a url names: the value of the last run of digits in it that
/// lies in 8..=1024.
pub open spec fn bitrate_in(s: Seq<char>) -> Option<u32>
    decreases s.len(),
{
    if s.len() == 0 {
        None
    } else {
        let k = trailing_digits(s);
        if k > 0 {
            proof {
                lemma_trailing_digits(s);
            }
            let v = digits_value(s.skip(s.len() - k));
            if plausible_bitrate(v) {
                Some(v as u32)
            } else {
                bitrate_in(s.take(s.len() - k))
            }
        } else {
            bitrate_in(s.drop_last())
        }
    }
}

/// A url ends with at most its own length of digits, all of them digits.
pub proof fn lemma_trailing_digits(s: Seq<char>)
    ensures
        trailing_digits(s) <= s.len(),
        all_digits(s.skip(s.len() - trailing_digits(s))),
    decreases s.len(),
{
    if s.len() > 0 && is_digit(s.last()) {
        lemma_trailing_digits(s.drop_last());
        let k = trailing_digits(s);
        assert forall|i: int| 0 <= i < s.skip(s.len() - k).len() implies is_digit(
            #[trigger] s.skip(s.len() - k)[i],
        ) by {
            if i < k - 1 {
                assert(s.skip(s.len() - k)[i] == s.drop_last().skip(s.drop_last().len() - (k - 1))[i]);
            }
        }
    } else {
        assert(s.skip(s.len() as int).len() == 0);
    }
}

proof fn lemma_trailing_run(s: Seq<char>, start: int, i: int)
    requires
        0 <= start <= i <= s.len(),
        start == 0 || !is_digit(s[start - 1]),
        forall|j: int| start <= j < i ==> is_digit(#[trigger] s[j]),
    ensures
        trailing_digits(s.take(i)) == i - start,
    decreases i - start,
{
    if i > start {
        assert(s.take(i).drop_last() =~= s.take(i - 1));
        lemma_trailing_run(s, start, i - 1);
    } else {
        if start > 0 {
            assert(s.take(i).last() == s[start - 1]);
        }
    }
}

/// Reads a plausible bitrate off a stream url: the last run of digits whose
/// value lies in 8..=1024.
pub fn parse_bitrate_from_url(url: &str) -> (r: Option<u32>)
    ensures
        r == bitrate_in(url@),
        r matches Some(v) ==> 8 <= v <= 1024,
{
    let s = chars_of(url);
    let mut best: Option<u32> = None;
    let mut start: usize = 0;
    let mut cur: u64 = 0;
    let mut i: usize = 0;
    while i < s.len()
        invariant
            i <= s@.len(),
            start <= i,
            start == 0 || !is_digit(s@[start - 1]),
            forall|j: int| start <= j < i ==> is_digit(#[trigger] s@[j]),
            best == bitrate_in(s@.take(start as int)),
            cur == (if digits_value(s@.subrange(start as int, i as int)) < 1025 {
                digits_value(s@.subrange(start as int, i as int))
            } else {
                1025
            }),
        decreases s.len() - i,
    {
        let c = s[i];
        if '0' <= c && c <= '9' {
            let ghost prev = s@.subrange(start as int, i as int);
            let d: u64 = (c as u32 - 48) as u64;
            let next = cur * 10 + d;
            cur = if next < 1025 {
                next
            } else {
                1025
            };
            proof {
                assert(s@.subrange(start as int, i + 1).drop_last() =~= prev);
                lemma_capped_step(digits_value(prev), d as nat, 1025);
            }
            i = i + 1;
        } else {
            proof {
                lemma_run_closed(s@, start as int, i as int, best, cur);
            }
            if 8 <= cur && cur <= 1024 {
                best = Some(cur as u32);
            }
            i = i + 1;
            start = i;
            cur = 0;
            proof {
                assert(s@.subrange(start as int, i as int) =~= Seq::<char>::empty());
            }
        }
    }
    proof {
        lemma_run_end(s@, start as int, best, cur);
        lemma_bitrate_range(s@);
    }
    if 8 <= cur && cur <= 1024 {
        best = Some(cur as u32);
    }
    best
}

/// Whatever bitrate a url names lies in 8..=1024.
pub proof fn lemma_bitrate_range(s: Seq<char>)
    ensures
        bitrate_in(s) matches Some(v) ==> 8 <= v <= 1024,
    decreases s.len(),
{
    if s.len() > 0 {
        let k = trailing_digits(s);
        lemma_trailing_digits(s);
        if k > 0 {
            lemma_bitrate_range(s.take(s.len() - k));
        } else {
            lemma_bitrate_range(s.drop_last());
        }
    }
}

proof fn lemma_bitrate_run(s: Seq<char>, start: int, i: int)
    requires
        0 <= start <= i <= s.len(),
        start == 0 || !is_digit(s[start - 1]),
        forall|j: int| start <= j < i ==> is_digit(#[trigger] s[j]),
    ensures
        bitrate_in(s.take(i)) == (if i > start && plausible_bitrate(
            digits_value(s.subrange(start, i)),
        ) {
            Some(digits_value(s.subrange(start, i)) as u32)
        } else {
            bitrate_in(s.take(start))
        }),
{
    lemma_trailing_run(s, start, i);
    let p = s.take(i);
    if i > start {
        assert(p.skip(p.len() - (i - start)) =~= s.subrange(start, i));
        assert(p.take(p.len() - (i - start)) =~= s.take(start));
    }
}

proof fn lemma_run_closed(s: Seq<char>, start: int, i: int, best: Option<u32>, cur: u64)
    requires
        0 <= start <= i < s.len(),
        start == 0 || !is_digit(s[start - 1]),
        forall|j: int| start <= j < i ==> is_digit(#[trigger] s[j]),
        !is_digit(s[i]),
        best == bitrate_in(s.take(start)),
        cur == (if digits_value(s.subrange(start, i)) < 1025 {
            digits_value(s.subrange(start, i))
        } else {
            1025
        }),
    ensures
        bitrate_in(s.take(i + 1)) == (if 8 <= cur <= 1024 {
            Some(cur as u32)
        } else {
            best
        }),
{
    lemma_bitrate_run(s, start, i);
    let p = s.take(i + 1);
    assert(p.drop_last() =~= s.take(i));
    assert(trailing_digits(p) == 0);
    if i == start {
        assert(s.subrange(start, i) =~= Seq::<char>::empty());
    }
}

proof fn lemma_run_end(s: Seq<char>, start: int, best: Option<u32>, cur: u64)
    requires
        0 <= start <= s.len(),
        start == 0 || !is_digit(s[start - 1]),
        forall|j: int| start <= j < s.len() ==> is_digit(#[trigger] s[j]),
        best == bitrate_in(s.take(start)),
        cur == (if digits_value(s.subrange(start, s.len() as int)) < 1025 {
            digits_value(s.subrange(start, s.len() as int))
        } else {
            1025
        }),
    ensures
        bitrate_in(s) == (if 8 <= cur <= 1024 {
            Some(cur as u32)
        } else {
            best
        }),
{
    lemma_bitrate_run(s, start, s.len() as int);
    assert(s.take(s.len() as int) =~= s);
    if start == s.len() {
        assert(s.subrange(start, s.len() as int) =~= Seq::<char>::empty());
    }
}

/// The pieces of the metadata display, in order.
pub open spec fn metadata_parts(m: MetadataView) -> Seq<Seq<char>> {
    let t = match m.title {
        Some(t) => seq!["title: "@ + t],
        None => Seq::empty(),
    };
    let a = match m.artist {
        Some(a) => seq!["artist: "@ + a],
        None => Seq::empty(),
    };
    let b = match m.bitrate_kbps {
        Some(b) => seq!["bitrate: "@ + decimal(b as nat) + " kbps"@],
        None => Seq::empty(),
    };
    t + a + b
}

/// `parts` joined by `sep`.
pub open spec fn join(parts: Seq<Seq<char>>, sep: Seq<char>) -> Seq<char>
    decreases parts.len(),
{
    if parts.len() == 0 {
        Seq::empty()
    } else if parts.len() == 1 {
        parts[0]
    } else {
        join(parts.drop_last(), sep) + sep + parts.last()
    }
}

/// How metadata is shown: its parts joined by ` | `, or "unavailable".
pub open spec fn metadata_display(m: MetadataView) -> Seq<char> {
    if metadata_parts(m).len() == 0 {
        "unavailable"@
    } else {
        join(metadata_parts(m), " | "@)
    }
}

/// Formats metadata for display.
pub fn format_metadata(metadata: &StationMetadata) -> (r: String)
    ensures
        r@ == metadata_display(metadata@),
{
    let mut parts: Vec<Vec<char>> = Vec::new();
    match &metadata.title {
        Some(t) => {
            let mut p = chars_of("title: ");
            append_str(&mut p, t.as_str());
            parts.push(p);
        },
        None => {},
    }
    match &metadata.artist {
        Some(a) => {
            let mut p = chars_of("artist: ");
            append_str(&mut p, a.as_str());
            parts.push(p);
        },
        None => {},
    }
    match metadata.bitrate_kbps {
        Some(b) => {
            let mut p = chars_of("bitrate: ");
            push_decimal(b as u64, &mut p);
            append_str(&mut p, " kbps");
            parts.push(p);
        },
        None => {},
    }
    let ghost pv = parts@.map_values(|p: Vec<char>| p@);
    assert(pv =~= metadata_parts(metadata@));
    if parts.len() == 0 {
        return "unavailable".to_owned();
    }
    let mut out = copy_range(&parts[0], 0, parts[0].len());
    assert(parts@[0]@.subrange(0, parts@[0]@.len() as int) =~= parts@[0]@);
    let mut i: usize = 1;
    while i < parts.len()
        invariant
            1 <= i <= parts@.len(),
            pv == parts@.map_values(|p: Vec<char>| p@),
            out@ == join(pv.take(i as int), " | "@),
        decreases parts.len() - i,
    {
        append_str(&mut out, " | ");
        append_chars(&mut out, &parts[i]);
        assert(pv.take(i + 1).drop_last() =~= pv.take(i as int));
        i = i + 1;
    }
    assert(pv.take(parts@.len() as int) =~= pv);
    string_from_chars(&out)
}

} // verus!
