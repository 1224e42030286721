use radio_slate::infrastructure::now_playing_body;

#[test]
fn now_playing_body_contains_station_name() {
    let body = now_playing_body("KEXP");
    assert!(body.contains("KEXP"), "body should mention the station name");
}

#[test]
fn now_playing_body_is_non_empty_for_empty_station() {
    let body = now_playing_body("");
    assert!(!body.is_empty());
}

#[test]
fn now_playing_body_format_is_stable() {
    assert_eq!(now_playing_body("KEXP"), "Now playing: KEXP");
}
