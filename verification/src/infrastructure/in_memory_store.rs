//! A station library held in memory, and the list operations every library
//! shares.
use vstd::prelude::*;

use crate::domain::repository::{
    contains_id, lemma_lookup, lemma_lookup_absent, lemma_lookup_at, lookup, merge_new, views,
    without_id, MutableStationRepository, StationRepository, StoreError,
};
use crate::domain::station::{Station, StationId, StationView};

verus! {

/// A copy of `stations`, station by station.
pub fn copy_stations(stations: &Vec<Station>) -> (r: Vec<Station>)
    ensures
        r@ == stations@,
{
    let mut out: Vec<Station> = Vec::new();
    let mut i: usize = 0;
    while i < stations.len()
        invariant
            i <= stations@.len(),
            out@ == stations@.subrange(0, i as int),
        decreases stations.len() - i,
    {
        out.push(stations[i].duplicate());
        i = i + 1;
    }
    assert(stations@.subrange(0, stations@.len() as int) =~= stations@);
    out
}

/// The position of the first station with id `id`.
pub fn position_of(stations: &Vec<Station>, id: &StationId) -> (r: Option<usize>)
    ensures
        match r {
            Some(i) => i < stations@.len() && stations@[i as int].id@ == id@ && lookup(
                views(stations@),
                id@,
            ) == Some(stations@[i as int]@),
            None => lookup(views(stations@), id@) is None && !contains_id(views(stations@), id@),
        },
{
    let mut i: usize = 0;
    while i < stations.len()
        invariant
            i <= stations@.len(),
            forall|j: int| 0 <= j < i ==> #[trigger] views(stations@)[j].id != id@,
        decreases stations.len() - i,
    {
        if stations[i].id.same_as(id) {
            proof {
                lemma_lookup_at(views(stations@), id@, i as int);
            }
            return Some(i);
        }
        i = i + 1;
    }
    proof {
        lemma_lookup_absent(views(stations@), id@);
        lemma_lookup(views(stations@), id@);
    }
    None
}

/// Whether some station in `stations` has id `id`.
pub fn holds_id(stations: &Vec<Station>, id: &StationId) -> (r: bool)
    ensures
        r == contains_id(views(stations@), id@),
{
    let p = position_of(stations, id);
    proof {
        lemma_lookup(views(stations@), id@);
    }
    p.is_some()
}

/// `stations` without the stations whose id is `id`.
pub fn remove_id(stations: &Vec<Station>, id: &StationId) -> (r: Vec<Station>)
    ensures
        views(r@) == without_id(views(stations@), id@),
{
    let mut out: Vec<Station> = Vec::new();
    let mut i: usize = 0;
    while i < stations.len()
        invariant
            i <= stations@.len(),
            views(out@) == without_id(views(stations@.subrange(0, i as int)), id@),
        decreases stations.len() - i,
    {
        let ghost prefix = stations@.subrange(0, i as int);
        let ghost next = stations@.subrange(0, i + 1);
        assert(views(next).drop_last() =~= views(prefix));
        assert(views(next).last() == stations@[i as int]@);
        if !stations[i].id.same_as(id) {
            let ghost before = out@;
            out.push(stations[i].duplicate());
            assert(views(out@) =~= views(before).push(stations@[i as int]@));
        }
        i = i + 1;
    }
    assert(stations@.subrange(0, stations@.len() as int) =~= stations@);
    out
}

/// Appends to `stations` each of `incoming` whose id is not present yet at
/// that point; returns how many were appended.
pub fn merge_stations(stations: &mut Vec<Station>, incoming: Vec<Station>) -> (r: usize)
    ensures
        views(final(stations)@) == merge_new(views(old(stations)@), views(incoming@)),
        r == final(stations)@.len() - old(stations)@.len(),
{
    let mut added: usize = 0;
    let mut i: usize = 0;
    while i < incoming.len()
        invariant
            i <= incoming@.len(),
            views(stations@) == merge_new(
                views(old(stations)@),
                views(incoming@.subrange(0, i as int)),
            ),
            stations@.len() == old(stations)@.len() + added,
            added <= i,
        decreases incoming.len() - i,
    {
        let ghost prefix = incoming@.subrange(0, i as int);
        let ghost next = incoming@.subrange(0, i + 1);
        assert(views(next).drop_last() =~= views(prefix));
        assert(views(next).last() == incoming@[i as int]@);
        if !holds_id(stations, &incoming[i].id) {
            let ghost before = stations@;
            stations.push(incoming[i].duplicate());
            assert(views(stations@) =~= views(before).push(incoming@[i as int]@));
            added = added + 1;
        }
        i = i + 1;
    }
    assert(incoming@.subrange(0, incoming@.len() as int) =~= incoming@);
    added
}

/// A station library that lives in memory only.
#[derive(Clone)]
pub struct InMemoryStationRepository {
    stations: Vec<Station>,
}

impl View for InMemoryStationRepository {
    type V = Seq<StationView>;

    closed spec fn view(&self) -> Seq<StationView> {
        views(self.stations@)
    }
}

impl Default for InMemoryStationRepository {
    fn default() -> (r: InMemoryStationRepository)
        ensures
            r@ == Seq::<StationView>::empty(),
    {
        let r = InMemoryStationRepository { stations: Vec::new() };
        assert(r@ =~= Seq::<StationView>::empty());
        r
    }
}

impl InMemoryStationRepository {
    /// A library holding exactly `stations`, in that order.
    pub fn with_seed_stations(stations: Vec<Station>) -> (r: InMemoryStationRepository)
        ensures
            r@ == views(stations@),
    {
        InMemoryStationRepository { stations }
    }
}

impl StationRepository for InMemoryStationRepository {
    /// All stations, in order.
    fn list(&self) -> (r: Vec<Station>)
        ensures
            views(r@) == self@,
    {
        copy_stations(&self.stations)
    }

    /// The first station with id `id`.
    fn get(&self, id: &StationId) -> (r: Option<Station>)
        ensures
            match r {
                Some(s) => lookup(self@, id@) == Some(s@),
                None => lookup(self@, id@) is None,
            },
    {
        match position_of(&self.stations, id) {
            Some(i) => Some(self.stations[i].duplicate()),
            None => None,
        }
    }
}

impl MutableStationRepository for InMemoryStationRepository {
    /// Refuses a station whose id is present; otherwise appends it.
    fn add(&mut self, station: Station) -> (r: Result<(), StoreError>)
        ensures
            contains_id(old(self)@, station.id@) ==> final(self)@ == old(self)@ && (r matches Err(
                StoreError::DuplicateStation(id),
            ) && id@ == station.id@),
            !contains_id(old(self)@, station.id@) ==> final(self)@ == old(self)@.push(station@)
                && r is Ok,
    {
        if holds_id(&self.stations, &station.id) {
            return Err(StoreError::DuplicateStation(station.id.duplicate()));
        }
        let ghost before = self.stations@;
        self.stations.push(station);
        assert(views(self.stations@) =~= views(before).push(station@));
        Ok(())
    }

    /// Removes every station with id `id`.
    fn remove(&mut self, id: &StationId) -> (r: Result<bool, StoreError>)
        ensures
            final(self)@ == without_id(old(self)@, id@),
            r == Ok::<bool, StoreError>(contains_id(old(self)@, id@)),
    {
        let kept = remove_id(&self.stations, id);
        proof {
            crate::domain::repository::lemma_without_id(self@, id@);
        }
        let removed = kept.len() < self.stations.len();
        self.stations = kept;
        Ok(removed)
    }

    /// Appends, in order, each station whose id is not present yet.
    fn add_many(&mut self, stations: Vec<Station>) -> (r: Result<usize, StoreError>)
        ensures
            final(self)@ == merge_new(old(self)@, views(stations@)),
            r == Ok::<usize, StoreError>((final(self)@.len() - old(self)@.len()) as usize),
    {
        let added = merge_stations(&mut self.stations, stations);
        Ok(added)
    }
}

} // verus!
