use radio_slate::domain::{Station, StationId, StationRepository, StoreError};
use radio_slate::infrastructure::json_store::{DEFAULT_STATION_NAME, DEFAULT_STATION_GENRE};
use radio_slate::config::DEFAULT_STATION_URL;
use radio_slate::infrastructure::{JsonStationRepository, Persistence, StoredDocument};

fn fresh() -> JsonStationRepository {
    JsonStationRepository::open_document("/tmp/stations.json".to_string(), StoredDocument::Absent)
        .unwrap()
}

#[test]
fn new_store_seeds_kexp_fallback_when_file_absent() {
    let repo = fresh();
    let stations = repo.list();
    assert_eq!(stations.len(), 1);
    assert_eq!(stations[0].name, DEFAULT_STATION_NAME);
    assert_eq!(stations[0].url, DEFAULT_STATION_URL);
}

#[test]
fn add_rejects_duplicate_station() {
    let mut repo = fresh();
    let station = Station::new("Echo", "https://example.test/stream", "jazz").unwrap();
    repo.add(station.clone()).unwrap();
    let result = repo.add(station);
    assert!(result.is_err());
}

#[test]
fn json_store_remove_returns_false_for_unknown_id() {
    let mut repo = fresh();
    let id = StationId::new("station-nonexistent");
    assert!(!repo.remove(&id).0);
}

#[test]
fn json_store_add_many_skips_duplicates_and_returns_count() {
    let mut repo = fresh();
    let kexp = repo.list()[0].clone();
    let new_station = Station::new("Fresh Radio", "https://example.test/fresh", "indie").unwrap();
    let count = repo.add_many(vec![kexp, new_station]).0;
    assert_eq!(count, 1);
}

#[test]
fn seed_station_is_eclectic_kexp() {
    let repo = fresh();
    let s = &repo.list()[0];
    assert_eq!(s.genre, DEFAULT_STATION_GENRE);
    assert_eq!(s.id.as_str(), "station-kexp");
}

#[test]
fn changes_ask_for_save_only_when_something_changed() {
    let mut repo = fresh();
    let station = Station::new("Echo", "https://example.test/stream", "jazz").unwrap();
    assert_eq!(repo.add(station.clone()).unwrap(), Persistence::Save);
    assert_eq!(repo.remove(&station.id), (true, Persistence::Save));
    assert_eq!(repo.remove(&station.id), (false, Persistence::Keep));
    assert_eq!(repo.add_many(vec![]), (0, Persistence::Keep));
    assert!(repo.get(&station.id).is_none());
}

#[test]
fn stored_documents_yield_their_stations() {
    let station = Station::new("Legacy FM", "https://example.test/legacy", "oldies").unwrap();
    let repo = JsonStationRepository::open_document(
        "x.json".to_string(),
        StoredDocument::Legacy(vec![station.clone()]),
    )
    .unwrap();
    assert_eq!(repo.list(), vec![station.clone()]);
    let repo = JsonStationRepository::open_document(
        "x.json".to_string(),
        StoredDocument::Versioned(vec![]),
    )
    .unwrap();
    assert!(repo.list().is_empty());
    assert_eq!(repo.path(), "x.json");
    let err = JsonStationRepository::open_document("x.json".to_string(), StoredDocument::Unrecognised)
        .err()
        .unwrap();
    assert_eq!(
        err,
        StoreError::Storage("station store at 'x.json' has an unrecognised format".to_string())
    );
}

/// What reading back the document a save writes gives: the library's
/// stations under the versioned envelope.
fn reloaded(repo: &JsonStationRepository) -> JsonStationRepository {
    JsonStationRepository::open_document(
        repo.path().to_string(),
        StoredDocument::Versioned(repo.list()),
    )
    .unwrap()
}

#[test]
fn save_and_reload_round_trips_stations() {
    let station = Station::new("Test FM", "https://example.test/stream", "pop").unwrap();
    let mut repo = fresh();
    assert_eq!(repo.add(station.clone()).unwrap(), Persistence::Save);

    let reloaded = reloaded(&repo);
    assert!(reloaded.list().iter().any(|s| s.id == station.id));
}

#[test]
fn remove_deletes_station_and_persists() {
    let station = Station::new("Echo", "https://example.test/stream", "jazz").unwrap();
    let id = station.id.clone();

    let mut repo = fresh();
    repo.add(station).unwrap();
    let (removed, persistence) = repo.remove(&id);
    assert!(removed);
    assert_eq!(persistence, Persistence::Save);
    assert!(repo.get(&id).is_none());

    let reloaded = reloaded(&repo);
    assert!(reloaded.get(&id).is_none());
}

#[test]
fn migrates_legacy_plain_array_format() {
    let legacy_station = Station::new("Legacy FM", "https://example.test/legacy", "oldies").unwrap();
    let repo = JsonStationRepository::open_document(
        "/tmp/stations.json".to_string(),
        StoredDocument::Legacy(vec![legacy_station]),
    )
    .unwrap();
    assert_eq!(repo.list().len(), 1);
    assert_eq!(repo.list()[0].name, "Legacy FM");
}
