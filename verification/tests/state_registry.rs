use companion_core::config::{config_file_path, saved_position_reply, WindowConfig, WindowPosition};
use companion_core::state::AppState;

fn fresh_state() -> AppState {
    AppState::from_config(&WindowConfig::default())
}

#[test]
fn set_then_get_monitored_returns_the_list_exactly() {
    let mut s = fresh_state();
    let windows = vec!["Alpha".to_string(), "Beta".to_string(), "Alpha".to_string()];
    s.set_monitored_windows(windows.clone());
    assert_eq!(s.get_monitored_windows(), windows);
    let replaced = vec!["Gamma".to_string()];
    s.set_monitored_windows(replaced.clone());
    assert_eq!(s.get_monitored_windows(), replaced);
}

#[test]
fn other_setters_leave_the_monitored_list_alone() {
    let mut s = fresh_state();
    let windows = vec!["Alpha".to_string(), "Beta".to_string()];
    s.set_monitored_windows(windows.clone());
    s.set_window_pinned(true);
    s.set_auto_hide_delay(42);
    s.set_dark_mode(true);
    assert_eq!(s.get_monitored_windows(), windows);
}

#[test]
fn setter_replies_name_what_was_done() {
    let mut s = fresh_state();
    assert_eq!(s.set_monitored_windows(vec!["A".to_string(), "B".to_string()]), "Set 2 monitored windows");
    assert_eq!(s.set_monitored_windows(Vec::new()), "Set 0 monitored windows");
    assert_eq!(s.set_auto_hide_delay(10), "Set auto hide delay to 10 seconds");
    assert_eq!(s.set_window_pinned(true), "Window pinned");
    assert_eq!(s.set_window_pinned(false), "Window unpinned");
    assert_eq!(s.set_dark_mode(true), "Dark mode set to: true");
    assert_eq!(s.set_dark_mode(false), "Dark mode set to: false");
}

#[test]
fn flags_and_delay_read_back() {
    let mut s = fresh_state();
    assert!(!s.get_window_pinned());
    s.set_window_pinned(true);
    assert!(s.get_window_pinned());
    assert_eq!(s.get_auto_hide_delay(), 5);
    s.set_auto_hide_delay(0);
    assert_eq!(s.get_auto_hide_delay(), 0);
    assert!(!s.get_dark_mode());
    s.set_dark_mode(true);
    assert!(s.get_dark_mode());
}

#[test]
fn startup_state_comes_from_the_record() {
    let c = WindowConfig {
        monitored_windows: vec!["Explorer".to_string()],
        auto_hide_delay: 30,
        main_window_position: Some(WindowPosition { x: 1, y: 2, width: 3, height: 4 }),
        preference_window_position: None,
        dark_mode: true,
    };
    let s = AppState::from_config(&c);
    assert_eq!(s.get_monitored_windows(), vec!["Explorer".to_string()]);
    assert_eq!(s.get_auto_hide_delay(), 30);
    assert!(s.get_dark_mode());
    assert!(!s.get_window_pinned());
    assert!(!s.monitoring_active);
    assert!(s.last_seen_windows.is_empty());
}

#[test]
fn merges_keep_the_fields_they_do_not_own() {
    let disk = WindowConfig {
        monitored_windows: vec!["Old".to_string()],
        auto_hide_delay: 5,
        main_window_position: Some(WindowPosition { x: 9, y: 8, width: 7, height: 6 }),
        preference_window_position: Some(WindowPosition { x: 1, y: 2, width: 3, height: 4 }),
        dark_mode: true,
    };
    let merged = disk.merged_with_monitoring(&vec!["New".to_string()], 15);
    assert_eq!(merged.monitored_windows, vec!["New".to_string()]);
    assert_eq!(merged.auto_hide_delay, 15);
    assert_eq!(merged.main_window_position.map(|p| p.x), Some(9));
    assert_eq!(merged.preference_window_position.map(|p| p.y), Some(2));
    assert!(merged.dark_mode);

    let darker = disk.merged_with_dark_mode(false);
    assert!(!darker.dark_mode);
    assert_eq!(darker.monitored_windows, vec!["Old".to_string()]);
    assert_eq!(darker.auto_hide_delay, 5);
    assert_eq!(darker.main_window_position.map(|p| p.width), Some(7));
}

#[test]
fn position_merge_knows_its_two_slots() {
    let disk = WindowConfig::default();
    let pos = WindowPosition { x: -10, y: 20, width: 640, height: 480 };
    let with_main = disk.merged_with_position("main", pos).expect("main slot exists");
    assert_eq!(with_main.main_window_position.map(|p| (p.x, p.y, p.width, p.height)), Some((-10, 20, 640, 480)));
    assert!(with_main.preference_window_position.is_none());
    let with_pref = disk.merged_with_position("preference", pos).expect("preference slot exists");
    assert!(with_pref.main_window_position.is_none());
    assert_eq!(with_pref.preference_window_position.map(|p| p.width), Some(640));
    let err = disk.merged_with_position("toolbox", pos).unwrap_err();
    assert_eq!(err, "Unknown window label: toolbox");
}

#[test]
fn position_lookup_matches_the_slot() {
    let disk = WindowConfig {
        monitored_windows: Vec::new(),
        auto_hide_delay: 5,
        main_window_position: Some(WindowPosition { x: 5, y: 6, width: 7, height: 8 }),
        preference_window_position: None,
        dark_mode: false,
    };
    assert_eq!(disk.get_window_position("main").map(|p| p.x), Some(5));
    assert!(disk.get_window_position("preference").is_none());
    assert!(disk.get_window_position("other").is_none());
}

#[test]
fn path_and_save_replies() {
    assert_eq!(config_file_path("/home/user/.local/share/app"), "/home/user/.local/share/app/window_config.json");
    assert_eq!(saved_position_reply("main"), "Saved position for window: main");
}
