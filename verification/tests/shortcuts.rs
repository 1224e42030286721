use radio_slate::ui::shortcuts::{shortcut_action_for_key, ShortcutAction};

#[test]
fn maps_toggle_shortcuts() {
    assert_eq!(
        shortcut_action_for_key("XF86AudioPlay"),
        Some(ShortcutAction::TogglePlayback)
    );
    assert_eq!(
        shortcut_action_for_key("space"),
        Some(ShortcutAction::TogglePlayback)
    );
}

#[test]
fn maps_next_station_shortcut() {
    assert_eq!(
        shortcut_action_for_key("n"),
        Some(ShortcutAction::NextStation)
    );
}

#[test]
fn documented_shortcuts_ignore_case_and_padding() {
    for key in ["Space", "P", "K", "XF86AudioPlay", "XF86AudioPause", " p "] {
        assert_eq!(
            shortcut_action_for_key(key),
            Some(ShortcutAction::TogglePlayback)
        );
    }
    for key in ["N", "XF86AudioNext"] {
        assert_eq!(shortcut_action_for_key(key), Some(ShortcutAction::NextStation));
    }
    assert_eq!(shortcut_action_for_key("q"), None);
}
