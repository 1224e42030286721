use radio_slate::domain::{MutableStationRepository, Station, StationId, StationRepository, StoreError};
use radio_slate::infrastructure::InMemoryStationRepository;

fn make_station(name: &str, genre: &str) -> Station {
    Station::new(name, "https://example.test/stream", genre).unwrap()
}

#[test]
fn empty_repository_returns_no_stations() {
    let repo = InMemoryStationRepository::default();
    assert!(repo.list().is_empty());
}

#[test]
fn repository_lists_seeded_stations() {
    let stations = vec![make_station("Echo", "news"), make_station("Vibe", "jazz")];
    let repo = InMemoryStationRepository::with_seed_stations(stations);
    assert_eq!(repo.list().len(), 2);
}

#[test]
fn repository_get_returns_matching_station() {
    let station = make_station("Echo", "news");
    let id = station.id.clone();
    let repo = InMemoryStationRepository::with_seed_stations(vec![station.clone()]);
    assert_eq!(repo.get(&id), Some(station));
}

#[test]
fn repository_get_returns_none_for_unknown_id() {
    let repo = InMemoryStationRepository::with_seed_stations(vec![make_station("Echo", "news")]);
    assert!(repo.get(&StationId::new("station-unknown")).is_none());
}

#[test]
fn in_memory_add_then_get_and_duplicate() {
    let mut repo = InMemoryStationRepository::default();
    let station = make_station("Echo", "news");
    repo.add(station.clone()).unwrap();
    assert_eq!(repo.get(&station.id), Some(station.clone()));
    let err = repo.add(station.clone()).unwrap_err();
    assert_eq!(err, StoreError::DuplicateStation(station.id.clone()));
    assert_eq!(
        err.message(),
        "station 'station-echo' already exists in the library"
    );
    assert_eq!(repo.list().len(), 1);
}

#[test]
fn in_memory_remove_reports_and_forgets() {
    let mut repo = InMemoryStationRepository::with_seed_stations(vec![
        make_station("Echo", "news"),
        make_station("Vibe", "jazz"),
    ]);
    let id = StationId::new("station-echo");
    assert!(repo.remove(&id).unwrap());
    assert!(repo.get(&id).is_none());
    assert!(!repo.remove(&id).unwrap());
    assert_eq!(repo.list().len(), 1);
}

#[test]
fn in_memory_add_many_counts_and_is_idempotent() {
    let mut repo = InMemoryStationRepository::with_seed_stations(vec![make_station("Echo", "news")]);
    let batch = vec![
        make_station("Echo", "news"),
        make_station("Vibe", "jazz"),
        make_station("Vibe", "jazz"),
    ];
    assert_eq!(repo.add_many(batch.clone()).unwrap(), 1);
    assert_eq!(repo.add_many(batch).unwrap(), 0);
    let names: Vec<String> = repo.list().into_iter().map(|s| s.name).collect();
    assert_eq!(names, vec!["Echo", "Vibe"]);
}
