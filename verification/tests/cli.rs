use radio_slate::domain::Station;
use radio_slate::ui::cli::{
    default_name_for_url, export_summary, import_summary, station_from_arguments,
    station_list_line,
};

#[test]
fn added_station_defaults() {
    let s = station_from_arguments("https://example.test/live/stream.mp3", None, None).unwrap();
    assert_eq!(s.name, "stream.mp3");
    assert_eq!(s.genre, "imported");
    let named = station_from_arguments("https://example.test/x", Some("My FM"), Some("pop")).unwrap();
    assert_eq!(named.id.as_str(), "station-my-fm");
    assert!(station_from_arguments("https://example.test/", None, None).is_err());
    assert_eq!(default_name_for_url("no-slash"), "no-slash");
}

#[test]
fn cli_lines() {
    let s = Station::new("Echo", "https://example.test/stream", "news").unwrap();
    assert_eq!(station_list_line(&s), "Echo | news | https://example.test/stream");
    assert_eq!(import_summary(1, 3), "imported 1 of 3 stations (duplicates skipped)");
    assert_eq!(export_summary(2, "out.m3u"), "exported 2 stations to 'out.m3u'");
}
