use radio_slate::application::PlaybackSnapshot;
use radio_slate::application::playback_snapshot::snapshot_object;
use radio_slate::domain::Station;
use radio_slate::infrastructure::json::string_to_json;

fn stopped_snapshot() -> PlaybackSnapshot {
    PlaybackSnapshot {
        state: "stopped".to_string(),
        station: None,
        stations_available: 0,
    }
}

fn decode(json: &str) -> PlaybackSnapshot {
    let v: serde_json::Value = serde_json::from_str(json).unwrap();
    let station = if v["station"].is_null() {
        None
    } else {
        let s = &v["station"];
        Some(Station {
            id: radio_slate::domain::StationId::new(s["id"].as_str().unwrap()),
            name: s["name"].as_str().unwrap().to_string(),
            url: s["url"].as_str().unwrap().to_string(),
            genre: s["genre"].as_str().unwrap().to_string(),
        })
    };
    PlaybackSnapshot {
        state: v["state"].as_str().unwrap().to_string(),
        station,
        stations_available: v["stations_available"].as_u64().unwrap() as usize,
    }
}

#[test]
fn snapshot_serializes_to_json() {
    let snapshot = stopped_snapshot();
    let json = snapshot.to_json().unwrap();
    assert!(json.contains("\"state\""));
    assert!(json.contains("stopped"));
    assert!(json.contains("stations_available"));
}

#[test]
fn snapshot_roundtrips_through_json() {
    let original = PlaybackSnapshot {
        state: "playing".to_string(),
        station: None,
        stations_available: 3,
    };
    let json = original.to_json().unwrap();
    let decoded = decode(&json);
    assert_eq!(original, decoded);
}

#[test]
fn snapshot_with_station_roundtrips() {
    let station =
        Station::new("KEXP", "http://live-mp3-128.kexp.org/kexp128.mp3", "eclectic").unwrap();
    let original = PlaybackSnapshot {
        state: "playing".to_string(),
        station: Some(station),
        stations_available: 1,
    };
    let json = original.to_json().unwrap();
    let decoded = decode(&json);
    assert_eq!(original, decoded);
}

#[test]
fn snapshot_serialization_failure_returns_error() {
    let snapshot = stopped_snapshot();
    assert!(snapshot.to_json().is_ok());
}

#[test]
fn snapshot_json_is_exact() {
    assert_eq!(
        stopped_snapshot().to_json().unwrap(),
        "{\"state\":\"stopped\",\"station\":null,\"stations_available\":0}"
    );
    assert_eq!(
        snapshot_object("\"x\"", Some("{}"), 12),
        "{\"state\":\"x\",\"station\":{},\"stations_available\":12}"
    );
}

#[test]
fn string_literals_escape_quotes_backslashes_and_controls() {
    assert_eq!(
        string_to_json("a\"b\\c\n\t\r\u{8}\u{c}\u{1}\u{1f}é/").unwrap(),
        "\"a\\\"b\\\\c\\n\\t\\r\\b\\f\\u0001\\u001fé/\""
    );
    assert_eq!(string_to_json("").unwrap(), "\"\"");
}
