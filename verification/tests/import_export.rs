use radio_slate::domain::Station;
use radio_slate::infrastructure::{
    export_content, export_to_json, export_to_m3u, import_format_for_extension, parse_m3u,
    parse_pls, url_to_name, ImportFormat, TransferError,
};

#[test]
fn parse_pls_extracts_stations() {
    let pls = "\
[playlist]
NumberOfEntries=2

File1=http://stream1.example.test/radio
Title1=Test Radio One

File2=https://stream2.example.test/live
Title2=Test Radio Two

Version=2
";
    let stations = parse_pls(pls).unwrap();
    assert_eq!(stations.len(), 2);
    assert_eq!(stations[0].name, "Test Radio One");
    assert_eq!(stations[0].url, "http://stream1.example.test/radio");
    assert_eq!(stations[1].name, "Test Radio Two");
}

#[test]
fn parse_pls_falls_back_to_url_derived_name() {
    let pls = "File1=http://stream.example.test/audio.mp3\n";
    let stations = parse_pls(pls).unwrap();
    assert_eq!(stations.len(), 1);
    assert_eq!(stations[0].name, "audio.mp3");
}

#[test]
fn parse_pls_skips_entries_with_invalid_url() {
    let pls = "File1=not-a-url\nTitle1=Bad\n";
    let stations = parse_pls(pls).unwrap();
    assert!(stations.is_empty());
}

#[test]
fn parse_m3u_extended_extracts_stations() {
    let m3u = "\
#EXTM3U
#EXTINF:-1,Echo Jazz
http://jazz.example.test/stream
#EXTINF:-1,World Beat FM
https://world.example.test/live
";
    let stations = parse_m3u(m3u).unwrap();
    assert_eq!(stations.len(), 2);
    assert_eq!(stations[0].name, "Echo Jazz");
    assert_eq!(stations[1].url, "https://world.example.test/live");
}

#[test]
fn parse_m3u_plain_derives_name_from_url() {
    let m3u = "#EXTM3U\nhttp://stream.example.test/plain.mp3\n";
    let stations = parse_m3u(m3u).unwrap();
    assert_eq!(stations.len(), 1);
    assert_eq!(stations[0].name, "plain.mp3");
}

#[test]
fn parse_m3u_skips_entries_with_invalid_url() {
    let m3u = "#EXTM3U\n#EXTINF:-1,Bad\nnot-a-url\n";
    let stations = parse_m3u(m3u).unwrap();
    assert!(stations.is_empty());
}

#[test]
fn export_to_json_produces_valid_json() {
    let station = Station::new("Echo", "https://example.test/stream", "jazz").unwrap();
    let json = export_to_json(&[station]).unwrap();
    let parsed: serde_json::Value = serde_json::from_str(&json).unwrap();
    assert!(parsed.is_array());
}

#[test]
fn export_to_m3u_includes_extinf_and_url() {
    let station = Station::new("Echo", "https://example.test/stream", "jazz").unwrap();
    let m3u = export_to_m3u(&[station]);
    assert!(m3u.contains("#EXTM3U"));
    assert!(m3u.contains("#EXTINF:-1,Echo"));
    assert!(m3u.contains("https://example.test/stream"));
}

#[test]
fn parse_pls_orders_by_index_and_later_lines_win() {
    let pls = "File3=http://c.test/x\nFile1=http://a.test/one\nTitle1=First\nFile1=http://a.test/uno\nTitle3= Third \nTitle1=Primero\n";
    let stations = parse_pls(pls).unwrap();
    assert_eq!(stations.len(), 2);
    assert_eq!(stations[0].name, "Primero");
    assert_eq!(stations[0].url, "http://a.test/uno");
    assert_eq!(stations[0].genre, "imported");
    assert_eq!(stations[1].name, "Third");
    assert_eq!(stations[1].url, "http://c.test/x");
}

#[test]
fn parse_pls_accepts_plus_sign_and_rejects_bad_indices() {
    let pls = "File+2=http://two.test/a\nFile-1=http://neg.test/b\nFilex=http://x.test/c\nFile99999999999=http://big.test/d\n";
    let stations = parse_pls(pls).unwrap();
    assert_eq!(stations.len(), 1);
    assert_eq!(stations[0].url, "http://two.test/a");
    assert_eq!(stations[0].name, "a");
}

#[test]
fn parse_m3u_pending_title_is_consumed_once() {
    let m3u = "#EXTINF:-1,Named\nhttp://one.test/first\nhttp://two.test/second?x=1\n# comment\n";
    let stations = parse_m3u(m3u).unwrap();
    assert_eq!(stations.len(), 2);
    assert_eq!(stations[0].name, "Named");
    assert_eq!(stations[1].name, "second");
}

#[test]
fn url_to_name_takes_last_segment_before_query() {
    assert_eq!(url_to_name("http://host.test/dir/file.mp3?token=1"), "file.mp3");
    assert_eq!(url_to_name("plain"), "plain");
    assert_eq!(url_to_name("http://host.test/"), "");
}

#[test]
fn m3u_export_round_trips_through_parse() {
    let stations = vec![
        Station::new("Echo", "https://example.test/stream", "jazz").unwrap(),
        Station::new("World, Beat", "http://world.test/live", "world").unwrap(),
    ];
    let parsed = parse_m3u(&export_to_m3u(&stations)).unwrap();
    assert_eq!(parsed.len(), 2);
    for (a, b) in stations.iter().zip(parsed.iter()) {
        assert_eq!(a.name, b.name);
        assert_eq!(a.url, b.url);
        assert_eq!(a.id, b.id);
        assert_eq!(b.genre, "imported");
    }
}

#[test]
fn export_to_m3u_is_exact() {
    let station = Station::new("Echo", "https://example.test/stream", "jazz").unwrap();
    assert_eq!(
        export_to_m3u(&[station]),
        "#EXTM3U\n#EXTINF:-1,Echo\nhttps://example.test/stream\n"
    );
    assert_eq!(export_to_m3u(&[]), "#EXTM3U\n");
}

#[test]
fn export_to_json_is_pretty_array() {
    let station = Station::new("Echo", "https://example.test/stream", "jazz").unwrap();
    assert_eq!(
        export_to_json(&[station]).unwrap(),
        "[\n  {\n    \"id\": \"station-echo\",\n    \"name\": \"Echo\",\n    \"url\": \"https://example.test/stream\",\n    \"genre\": \"jazz\"\n  }\n]"
    );
    assert_eq!(export_to_json(&[]).unwrap(), "[]");
}

#[test]
fn export_to_json_escapes_quotes() {
    let station = Station::new("Say \"hi\"", "https://example.test/stream", "talk").unwrap();
    let json = export_to_json(&[station]).unwrap();
    let parsed: serde_json::Value = serde_json::from_str(&json).unwrap();
    assert_eq!(parsed[0]["name"], "Say \"hi\"");
}

#[test]
fn export_content_rejects_unsupported_extension() {
    let err = export_content(&[], "CSV").unwrap_err();
    assert_eq!(err, TransferError::UnsupportedExport("csv".to_string()));
    assert_eq!(
        err.message(),
        "unsupported export format '.csv'; expected json or m3u"
    );
    assert!(export_content(&[], "M3U8").unwrap().starts_with("#EXTM3U"));
}

#[test]
fn import_formats_by_extension() {
    assert_eq!(import_format_for_extension("PLS").unwrap(), ImportFormat::Pls);
    assert_eq!(import_format_for_extension("m3u8").unwrap(), ImportFormat::M3u);
    assert_eq!(import_format_for_extension("json").unwrap(), ImportFormat::Json);
    let err = import_format_for_extension("txt").unwrap_err();
    assert_eq!(
        err.message(),
        "unsupported import format '.txt'; expected pls, m3u, or json"
    );
}

#[test]
fn export_to_path_rejects_unsupported_extension() {
    // `export.csv`: the extension decides the format, and csv has none.
    let result = export_content(&[], "csv");
    assert!(result.is_err());
}

#[test]
fn import_from_path_rejects_unknown_extension() {
    // `list.txt`: the extension decides the format, and txt has none.
    let result = import_format_for_extension("txt");
    assert!(result.is_err());
}
