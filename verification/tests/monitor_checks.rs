use companion_core::config::WindowConfig;
use companion_core::state::AppState;

fn titles(names: &[&str]) -> Vec<String> {
    names.iter().map(|n| n.to_string()).collect()
}

fn state_watching(monitored: &[&str]) -> AppState {
    let mut s = AppState::from_config(&WindowConfig::default());
    s.set_monitored_windows(titles(monitored));
    s
}

#[test]
fn notepad_closing_is_reported_and_the_snapshot_moves_on() {
    let mut s = state_watching(&["Notepad"]);
    s.start_window_monitoring(titles(&["Notepad", "Explorer"]));
    let closed = s.check_window_changes(titles(&["Explorer"]));
    assert_eq!(closed, titles(&["Notepad"]));
    assert_eq!(s.last_seen_windows, titles(&["Explorer"]));
}

#[test]
fn checking_an_unchanged_snapshot_reports_nothing() {
    let mut s = state_watching(&["Notepad", "Explorer"]);
    let snapshot = titles(&["Notepad", "Explorer", "Something else"]);
    s.start_window_monitoring(snapshot.clone());
    assert!(s.check_window_changes(snapshot).is_empty());
}

#[test]
fn stopped_monitoring_reports_nothing_ever() {
    let mut s = state_watching(&["Notepad"]);
    s.start_window_monitoring(titles(&["Notepad"]));
    s.stop_window_monitoring();
    assert!(s.check_window_changes(titles(&[])).is_empty());
    assert!(s.check_window_changes(titles(&["Notepad"])).is_empty());
    assert!(s.check_window_changes(titles(&[])).is_empty());
    assert_eq!(s.last_seen_windows, titles(&["Notepad"]));
}

#[test]
fn a_closed_title_is_reported_exactly_once() {
    let mut s = state_watching(&["Notepad"]);
    s.start_window_monitoring(titles(&["Notepad", "Explorer"]));
    let first = s.check_window_changes(titles(&["Explorer"]));
    assert_eq!(first, titles(&["Notepad"]));
    let second = s.check_window_changes(titles(&["Explorer"]));
    assert!(second.is_empty());
    let third = s.check_window_changes(titles(&[]));
    assert!(third.is_empty());
}

#[test]
fn a_reappearing_title_is_reported_again_after_it_is_seen_again() {
    let mut s = state_watching(&["Notepad"]);
    s.start_window_monitoring(titles(&["Notepad"]));
    assert_eq!(s.check_window_changes(titles(&[])), titles(&["Notepad"]));
    // Back on screen: this check re-admits it to the seen set but reports nothing.
    assert!(s.check_window_changes(titles(&["Notepad"])).is_empty());
    // Gone again: reported again.
    assert_eq!(s.check_window_changes(titles(&[])), titles(&["Notepad"]));
}

#[test]
fn duplicate_monitored_titles_are_reported_per_entry() {
    let mut s = state_watching(&["Notepad", "Notepad"]);
    s.start_window_monitoring(titles(&["Notepad"]));
    let closed = s.check_window_changes(titles(&[]));
    assert_eq!(closed, titles(&["Notepad", "Notepad"]));
}

#[test]
fn unmonitored_and_never_seen_titles_produce_no_events() {
    let mut s = state_watching(&["Notepad"]);
    s.start_window_monitoring(titles(&["Explorer"]));
    // Notepad was never in the seen set during this session, Explorer is not monitored.
    assert!(s.check_window_changes(titles(&[])).is_empty());
}

#[test]
fn monitoring_transitions_set_the_flag_and_snapshot() {
    let mut s = state_watching(&["Notepad"]);
    assert!(!s.monitoring_active);
    let started = s.start_window_monitoring(titles(&["Notepad"]));
    assert_eq!(started, "Window monitoring started");
    assert!(s.monitoring_active);
    assert_eq!(s.last_seen_windows, titles(&["Notepad"]));
    let stopped = s.stop_window_monitoring();
    assert_eq!(stopped, "Window monitoring stopped");
    assert!(!s.monitoring_active);
    assert_eq!(s.last_seen_windows, titles(&["Notepad"]));
}

#[test]
fn an_idle_check_leaves_the_snapshot_untouched() {
    let mut s = state_watching(&["Notepad"]);
    s.start_window_monitoring(titles(&["Notepad"]));
    s.stop_window_monitoring();
    s.check_window_changes(titles(&["Explorer"]));
    assert_eq!(s.last_seen_windows, titles(&["Notepad"]));
}
