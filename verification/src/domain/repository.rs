//! The station repository abstraction and the rules every library obeys.
use vstd::prelude::*;

use crate::domain::station::{Station, StationId, StationView};
use crate::text::{append_str, chars_of, string_from_chars};

verus! {

/// The views of a sequence of stations.
pub open spec fn views(stations: Seq<Station>) -> Seq<StationView> {
    stations.map_values(|s: Station| s@)
}

/// Some station in `stations` has id `id`.
pub open spec fn contains_id(stations: Seq<StationView>, id: Seq<char>) -> bool {
    exists|i: int| 0 <= i < stations.len() && #[trigger] stations[i].id == id
}

/// The first station in `stations` with id `id`.
pub open spec fn lookup(stations: Seq<StationView>, id: Seq<char>) -> Option<StationView>
    decreases stations.len(),
{
    if stations.len() == 0 {
        None
    } else if stations[0].id == id {
        Some(stations[0])
    } else {
        lookup(stations.drop_first(), id)
    }
}

/// No two stations share an id.
pub open spec fn ids_unique(stations: Seq<StationView>) -> bool {
    forall|i: int, j: int|
        0 <= i < j < stations.len() ==> #[trigger] stations[i].id != #[trigger] stations[j].id
}

/// `stations` without every station whose id is `id`, order kept.
pub open spec fn without_id(stations: Seq<StationView>, id: Seq<char>) -> Seq<StationView>
    decreases stations.len(),
{
    if stations.len() == 0 {
        Seq::empty()
    } else {
        let rest = without_id(stations.drop_last(), id);
        if stations.last().id == id {
            rest
        } else {
            rest.push(stations.last())
        }
    }
}

/// `stations` extended by each of `incoming`, in order, whose id is not
/// already present at that point.
pub open spec fn merge_new(stations: Seq<StationView>, incoming: Seq<StationView>) -> Seq<
    StationView,
>
    decreases incoming.len(),
{
    if incoming.len() == 0 {
        stations
    } else {
        let before = merge_new(stations, incoming.drop_last());
        if contains_id(before, incoming.last().id) {
            before
        } else {
            before.push(incoming.last())
        }
    }
}

/// `lookup` returns the first station with the id, if there is one.
pub proof fn lemma_lookup(stations: Seq<StationView>, id: Seq<char>)
    ensures
        lookup(stations, id) is Some <==> contains_id(stations, id),
        lookup(stations, id) matches Some(s) ==> s.id == id && exists|i: int|
            0 <= i < stations.len() && stations[i] == s && forall|j: int|
                0 <= j < i ==> #[trigger] stations[j].id != id,
    decreases stations.len(),
{
    if stations.len() > 0 {
        lemma_lookup(stations.drop_first(), id);
        if stations[0].id != id {
            if contains_id(stations, id) {
                let i = choose|i: int| 0 <= i < stations.len() && #[trigger] stations[i].id == id;
                assert(stations.drop_first()[i - 1].id == id);
            }
            if contains_id(stations.drop_first(), id) {
                let i = choose|i: int|
                    0 <= i < stations.drop_first().len() && #[trigger] stations.drop_first()[i].id
                        == id;
                assert(stations[i + 1].id == id);
            }
            match lookup(stations.drop_first(), id) {
                Some(s) => {
                    let k = choose|k: int|
                        0 <= k < stations.drop_first().len() && stations.drop_first()[k] == s
                            && forall|j: int|
                            0 <= j < k ==> #[trigger] stations.drop_first()[j].id != id;
                    assert(stations[k + 1] == s);
                    assert forall|j: int| 0 <= j < k + 1 implies #[trigger] stations[j].id != id by {
                        if j > 0 {
                            assert(stations[j] == stations.drop_first()[j - 1]);
                        }
                    }
                },
                None => {},
            }
        } else {
            assert(stations[0].id == id);
        }
    }
}

/// The first station with the id is what `lookup` returns.
pub proof fn lemma_lookup_at(stations: Seq<StationView>, id: Seq<char>, i: int)
    requires
        0 <= i < stations.len(),
        stations[i].id == id,
        forall|j: int| 0 <= j < i ==> #[trigger] stations[j].id != id,
    ensures
        lookup(stations, id) == Some(stations[i]),
    decreases i,
{
    if i > 0 {
        assert forall|j: int| 0 <= j < i - 1 implies #[trigger] stations.drop_first()[j].id != id by {
            assert(stations.drop_first()[j] == stations[j + 1]);
        }
        lemma_lookup_at(stations.drop_first(), id, i - 1);
        assert(stations[0].id != id);
    }
}

/// With no station holding the id, `lookup` finds nothing.
pub proof fn lemma_lookup_absent(stations: Seq<StationView>, id: Seq<char>)
    requires
        forall|j: int| 0 <= j < stations.len() ==> #[trigger] stations[j].id != id,
    ensures
        lookup(stations, id) is None,
{
    lemma_lookup(stations, id);
}

/// After adding a station whose id was absent, looking that id up finds it.
pub proof fn lemma_lookup_after_add(stations: Seq<StationView>, station: StationView)
    requires
        !contains_id(stations, station.id),
    ensures
        lookup(stations.push(station), station.id) == Some(station),
{
    let s = stations.push(station);
    assert forall|j: int| 0 <= j < stations.len() implies #[trigger] s[j].id != station.id by {
        assert(s[j] == stations[j]);
    }
    lemma_lookup_at(s, station.id, stations.len() as int);
}

/// Adding a station leaves the lookup of every other id unchanged.
pub proof fn lemma_lookup_other_after_add(
    stations: Seq<StationView>,
    station: StationView,
    id: Seq<char>,
)
    requires
        id != station.id,
    ensures
        lookup(stations.push(station), id) == lookup(stations, id),
    decreases stations.len(),
{
    if stations.len() > 0 {
        assert(stations.push(station).drop_first() =~= stations.drop_first().push(station));
        assert(stations.push(station)[0] == stations[0]);
        lemma_lookup_other_after_add(stations.drop_first(), station, id);
        assert(lookup(stations.push(station).drop_first(), id) == lookup(stations.drop_first(), id));
    } else {
        let e = stations.push(station).drop_first();
        assert(e =~= Seq::<StationView>::empty());
        assert(lookup(e, id) is None);
        assert(stations.push(station)[0] == station);
    }
}

/// What `without_id` keeps: the stations with other ids, in order.
pub proof fn lemma_without_id(stations: Seq<StationView>, id: Seq<char>)
    ensures
        !contains_id(without_id(stations, id), id),
        without_id(stations, id).len() <= stations.len(),
        without_id(stations, id).len() < stations.len() <==> contains_id(stations, id),
        forall|i: int|
            0 <= i < without_id(stations, id).len() ==> exists|j: int|
                0 <= j < stations.len() && stations[j] == #[trigger] without_id(stations, id)[i],
    decreases stations.len(),
{
    if stations.len() > 0 {
        let p = stations.drop_last();
        lemma_without_id(p, id);
        let rest = without_id(p, id);
        if contains_id(p, id) {
            let k = choose|k: int| 0 <= k < p.len() && #[trigger] p[k].id == id;
            assert(stations[k].id == id);
        }
        if contains_id(stations, id) && stations.last().id != id {
            let k = choose|k: int| 0 <= k < stations.len() && #[trigger] stations[k].id == id;
            assert(p[k].id == id);
        }
        if stations.last().id != id {
            let r = rest.push(stations.last());
            if contains_id(r, id) {
                let k = choose|k: int| 0 <= k < r.len() && #[trigger] r[k].id == id;
                assert(rest[k].id == id);
            }
            assert forall|i: int| 0 <= i < r.len() implies exists|j: int|
                0 <= j < stations.len() && stations[j] == #[trigger] r[i] by {
                if i < rest.len() {
                    let j = choose|j: int| 0 <= j < p.len() && p[j] == #[trigger] rest[i];
                    assert(stations[j] == r[i]);
                } else {
                    assert(stations[stations.len() - 1] == r[i]);
                }
            }
        } else {
            assert forall|i: int| 0 <= i < rest.len() implies exists|j: int|
                0 <= j < stations.len() && stations[j] == #[trigger] rest[i] by {
                let j = choose|j: int| 0 <= j < p.len() && p[j] == #[trigger] rest[i];
                assert(stations[j] == rest[i]);
            }
        }
    }
}

/// Removing the id `id` keeps exactly the stations whose id differs from
/// `id`, in their order: every such station stays, and no other.
pub proof fn lemma_without_id_keeps_others(stations: Seq<StationView>, id: Seq<char>)
    ensures
        without_id(stations, id) == stations.filter(|s: StationView| s.id != id),
        forall|j: int|
            0 <= j < stations.len() && stations[j].id != id ==> #[trigger] without_id(
                stations,
                id,
            ).contains(stations[j]),
    decreases stations.len(),
{
    reveal(Seq::filter);
    let pred = |s: StationView| s.id != id;
    if stations.len() > 0 {
        lemma_without_id_keeps_others(stations.drop_last(), id);
    }
    assert(without_id(stations, id) =~= stations.filter(pred));
    stations.filter_lemma(pred);
    assert forall|j: int| 0 <= j < stations.len() && stations[j].id != id implies #[trigger] without_id(
        stations,
        id,
    ).contains(stations[j]) by {
        assert(pred(stations[j]));
    }
}

/// After removing an id, looking it up finds nothing.
pub proof fn lemma_lookup_after_remove(stations: Seq<StationView>, id: Seq<char>)
    ensures
        lookup(without_id(stations, id), id) is None,
{
    lemma_without_id(stations, id);
    lemma_lookup(without_id(stations, id), id);
}

/// Removing keeps ids unique.
pub proof fn lemma_remove_keeps_unique(stations: Seq<StationView>, id: Seq<char>)
    requires
        ids_unique(stations),
    ensures
        ids_unique(without_id(stations, id)),
    decreases stations.len(),
{
    if stations.len() > 0 {
        let p = stations.drop_last();
        assert(ids_unique(p)) by {
            assert forall|i: int, j: int| 0 <= i < j < p.len() implies #[trigger] p[i].id
                != #[trigger] p[j].id by {
                assert(p[i] == stations[i] && p[j] == stations[j]);
            }
        }
        lemma_remove_keeps_unique(p, id);
        lemma_without_id(p, id);
        let rest = without_id(p, id);
        if stations.last().id != id {
            let r = rest.push(stations.last());
            assert forall|i: int, j: int| 0 <= i < j < r.len() implies #[trigger] r[i].id
                != #[trigger] r[j].id by {
                if j == rest.len() {
                    let k = choose|k: int| 0 <= k < p.len() && p[k] == #[trigger] rest[i];
                    assert(stations[k] == rest[i]);
                    assert(stations[stations.len() - 1] == r[j]);
                }
            }
        }
    }
}

/// Adding an absent id keeps ids unique.
pub proof fn lemma_add_keeps_unique(stations: Seq<StationView>, station: StationView)
    requires
        ids_unique(stations),
        !contains_id(stations, station.id),
    ensures
        ids_unique(stations.push(station)),
{
    let r = stations.push(station);
    assert forall|i: int, j: int| 0 <= i < j < r.len() implies #[trigger] r[i].id
        != #[trigger] r[j].id by {
        if j == stations.len() {
            assert(r[i] == stations[i]);
        }
    }
}

/// Merging keeps ids unique, only ever appends, and afterwards every id of
/// `incoming` is present.
pub proof fn lemma_merge_new(stations: Seq<StationView>, incoming: Seq<StationView>)
    ensures
        stations.len() <= merge_new(stations, incoming).len() <= stations.len() + incoming.len(),
        merge_new(stations, incoming).subrange(0, stations.len() as int) == stations,
        ids_unique(stations) ==> ids_unique(merge_new(stations, incoming)),
        forall|k: int|
            0 <= k < incoming.len() ==> contains_id(
                merge_new(stations, incoming),
                #[trigger] incoming[k].id,
            ),
        forall|id: Seq<char>|
            contains_id(stations, id) ==> #[trigger] contains_id(merge_new(stations, incoming), id),
    decreases incoming.len(),
{
    if incoming.len() > 0 {
        let p = incoming.drop_last();
        lemma_merge_new(stations, p);
        let before = merge_new(stations, p);
        let last = incoming.last();
        if !contains_id(before, last.id) {
            let after = before.push(last);
            assert(after.subrange(0, stations.len() as int) =~= before.subrange(
                0,
                stations.len() as int,
            ));
            if ids_unique(stations) {
                lemma_add_keeps_unique(before, last);
            }
            assert(after[before.len() as int].id == last.id);
            assert forall|k: int| 0 <= k < incoming.len() implies contains_id(
                after,
                #[trigger] incoming[k].id,
            ) by {
                if k < p.len() {
                    assert(incoming[k] == p[k]);
                    let w = choose|w: int| 0 <= w < before.len() && #[trigger] before[w].id == p[k].id;
                    assert(after[w].id == p[k].id);
                }
            }
            assert forall|id: Seq<char>| contains_id(stations, id) implies #[trigger] contains_id(
                after,
                id,
            ) by {
                let w = choose|w: int| 0 <= w < before.len() && #[trigger] before[w].id == id;
                assert(after[w].id == id);
            }
        } else {
            assert forall|k: int| 0 <= k < incoming.len() implies contains_id(
                before,
                #[trigger] incoming[k].id,
            ) by {
                if k < p.len() {
                    assert(incoming[k] == p[k]);
                }
            }
        }
    }
}

/// Merging stations whose ids are all present already changes nothing.
pub proof fn lemma_merge_present(stations: Seq<StationView>, incoming: Seq<StationView>)
    requires
        forall|k: int| 0 <= k < incoming.len() ==> contains_id(stations, #[trigger] incoming[k].id),
    ensures
        merge_new(stations, incoming) == stations,
    decreases incoming.len(),
{
    if incoming.len() > 0 {
        let p = incoming.drop_last();
        assert forall|k: int| 0 <= k < p.len() implies contains_id(stations, #[trigger] p[k].id) by {
            assert(p[k] == incoming[k]);
        }
        lemma_merge_present(stations, p);
        assert(contains_id(stations, incoming[incoming.len() - 1].id));
    }
}

/// Merging the same stations a second time adds nothing.
pub proof fn lemma_merge_idempotent(stations: Seq<StationView>, incoming: Seq<StationView>)
    ensures
        merge_new(merge_new(stations, incoming), incoming) == merge_new(stations, incoming),
{
    lemma_merge_new(stations, incoming);
    lemma_merge_present(merge_new(stations, incoming), incoming);
}

/// Why a change to a station library was refused or failed.
#[derive(Debug, Clone, PartialEq, Eq)]
pub enum StoreError {
    /// A station with this id is already in the library.
    DuplicateStation(StationId),
    /// Reading or writing the library's storage failed.
    Storage(String),
}

impl StoreError {
    /// The text a user is shown for the error.
    pub open spec fn message_view(&self) -> Seq<char> {
        match self {
            StoreError::DuplicateStation(id) => "station '"@ + id@ + "' already exists in the library"@,
            StoreError::Storage(m) => m@,
        }
    }

    /// The text a user is shown for the error.
    pub fn message(&self) -> (r: String)
        ensures
            r@ == self.message_view(),
    {
        match self {
            StoreError::DuplicateStation(id) => {
                let mut v = chars_of("station '");
                append_str(&mut v, id.as_str());
                append_str(&mut v, "' already exists in the library");
                string_from_chars(&v)
            },
            StoreError::Storage(m) => m.clone(),
        }
    }
}

/// Read access to a station library. Implementations may read storage, so
/// the trait itself promises nothing; the libraries of this crate state in
/// their own implementations what they return.
pub trait StationRepository {
    /// All stations, in listing order.
    fn list(&self) -> Vec<Station>;

    /// The first station with id `id`, if any.
    fn get(&self, id: &StationId) -> Option<Station>;
}

/// Write access to a station library.
pub trait MutableStationRepository: StationRepository {
    /// Adds a station whose id is not yet present.
    fn add(&mut self, station: Station) -> Result<(), StoreError>;

    /// Removes every station with id `id`; tells whether one was there.
    fn remove(&mut self, id: &StationId) -> Result<bool, StoreError>;

    /// Adds each station whose id is not present yet; tells how many.
    fn add_many(&mut self, stations: Vec<Station>) -> Result<usize, StoreError>;
}

} // verus!
