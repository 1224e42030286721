use radio_slate::config::{AppConfig, AppState, DEFAULT_STATION_URL};

#[test]
fn default_config_values() {
    let c = AppConfig::default();
    assert_eq!(c.volume_percent, 70);
    assert_eq!(c.default_station_url, DEFAULT_STATION_URL);
    assert!(!c.tray_autoplay);
    assert_eq!(c.tray_icon, "audio-x-generic");
    assert_eq!(AppState::default().last_station_url, None);
}

#[test]
fn sanitized_caps_volume_and_fills_blanks() {
    let c = AppConfig {
        volume_percent: 250,
        default_station_url: "   ".to_string(),
        tray_autoplay: true,
        tray_icon: "".to_string(),
    }
    .sanitized();
    assert_eq!(c.volume_percent, 100);
    assert_eq!(c.default_station_url, DEFAULT_STATION_URL);
    assert_eq!(c.tray_icon, "audio-x-generic");
    assert!(c.tray_autoplay);
}

#[test]
fn sanitized_keeps_sane_settings_and_is_idempotent() {
    let c = AppConfig {
        volume_percent: 42,
        default_station_url: "https://example.test/live".to_string(),
        tray_autoplay: true,
        tray_icon: "media-playback-start".to_string(),
    };
    let once = c.clone().sanitized();
    assert_eq!(once, c);
    assert_eq!(once.clone().sanitized(), once);
}

#[test]
fn loaded_config_falls_back_to_default() {
    assert_eq!(AppConfig::from_loaded(None), AppConfig::default());
    let loaded = AppConfig {
        volume_percent: 101,
        default_station_url: "x".to_string(),
        tray_autoplay: false,
        tray_icon: "i".to_string(),
    };
    assert_eq!(AppConfig::from_loaded(Some(loaded)).volume_percent, 100);
}
