use companion_core::config::{WindowConfig, WindowPosition};
use companion_core::json::{config_from_json, config_to_json, load_config_from_content};

fn assert_configs_equal(a: &WindowConfig, b: &WindowConfig) {
    assert_eq!(a.monitored_windows, b.monitored_windows);
    assert_eq!(a.auto_hide_delay, b.auto_hide_delay);
    assert_eq!(
        a.main_window_position.as_ref().map(|p| (p.x, p.y, p.width, p.height)),
        b.main_window_position.as_ref().map(|p| (p.x, p.y, p.width, p.height))
    );
    assert_eq!(
        a.preference_window_position.as_ref().map(|p| (p.x, p.y, p.width, p.height)),
        b.preference_window_position.as_ref().map(|p| (p.x, p.y, p.width, p.height))
    );
    assert_eq!(a.dark_mode, b.dark_mode);
}

#[test]
fn round_trip_default_config() {
    let c = WindowConfig::default();
    assert!(c.monitored_windows.is_empty());
    assert_eq!(c.auto_hide_delay, 5);
    assert!(c.main_window_position.is_none());
    assert!(c.preference_window_position.is_none());
    assert!(!c.dark_mode);
    let text = config_to_json(&c);
    let back = config_from_json(&text).expect("default config must read back");
    assert_configs_equal(&c, &back);
}

#[test]
fn round_trip_full_config() {
    let c = WindowConfig {
        monitored_windows: vec![
            "Notepad".to_string(),
            "quote \" and backslash \\".to_string(),
            "tabs\tand\nnewlines\r".to_string(),
            "日本語のタイトル".to_string(),
        ],
        auto_hide_delay: u64::MAX,
        main_window_position: Some(WindowPosition { x: i32::MIN, y: i32::MAX, width: 0, height: u32::MAX }),
        preference_window_position: None,
        dark_mode: true,
    };
    let text = config_to_json(&c);
    let back = config_from_json(&text).expect("full config must read back");
    assert_configs_equal(&c, &back);
}

#[test]
fn round_trip_control_characters() {
    let c = WindowConfig {
        monitored_windows: vec!["ctl \u{1}\u{8}\u{b}\u{c}\u{e}\u{1f} end".to_string()],
        auto_hide_delay: 0,
        main_window_position: None,
        preference_window_position: Some(WindowPosition { x: -1, y: 1, width: 800, height: 600 }),
        dark_mode: false,
    };
    let text = config_to_json(&c);
    let back = config_from_json(&text).expect("control characters must read back");
    assert_configs_equal(&c, &back);
}

#[test]
fn default_config_serializes_exactly() {
    let text = config_to_json(&WindowConfig::default());
    assert_eq!(
        text,
        "{\"monitored_windows\":[],\"auto_hide_delay\":5,\
         \"main_window_position\":null,\"preference_window_position\":null,\
         \"dark_mode\":false}"
    );
}

#[test]
fn titles_are_escaped_exactly() {
    let c = WindowConfig {
        monitored_windows: vec!["a\"b\\c\nd".to_string()],
        auto_hide_delay: 7,
        main_window_position: Some(WindowPosition { x: 10, y: -20, width: 300, height: 40 }),
        preference_window_position: None,
        dark_mode: true,
    };
    let text = config_to_json(&c);
    assert_eq!(
        text,
        "{\"monitored_windows\":[\"a\\\"b\\\\c\\nd\"],\"auto_hide_delay\":7,\
         \"main_window_position\":{\"x\":10,\"y\":-20,\"width\":300,\"height\":40},\
         \"preference_window_position\":null,\"dark_mode\":true}"
    );
}

#[test]
fn written_form_is_json_a_generic_parser_accepts() {
    let c = WindowConfig {
        monitored_windows: vec!["Notepad".to_string(), "A \"quoted\" title".to_string(), "\u{1f}".to_string()],
        auto_hide_delay: 12,
        main_window_position: Some(WindowPosition { x: -5, y: 6, width: 7, height: 8 }),
        preference_window_position: None,
        dark_mode: true,
    };
    let text = config_to_json(&c);
    let v: serde_json::Value = serde_json::from_str(&text).expect("must be well-formed JSON");
    assert_eq!(v["auto_hide_delay"], serde_json::Value::from(12u64));
    assert_eq!(v["dark_mode"], serde_json::Value::from(true));
    assert_eq!(v["monitored_windows"][0], serde_json::Value::from("Notepad"));
    assert_eq!(v["monitored_windows"][1], serde_json::Value::from("A \"quoted\" title"));
    assert_eq!(v["monitored_windows"][2], serde_json::Value::from("\u{1f}"));
    assert_eq!(v["main_window_position"]["x"], serde_json::Value::from(-5i64));
    assert_eq!(v["main_window_position"]["height"], serde_json::Value::from(8u64));
    assert!(v["preference_window_position"].is_null());
}

#[test]
fn malformed_content_reads_as_nothing() {
    assert!(config_from_json("").is_none());
    assert!(config_from_json("garbage").is_none());
    assert!(config_from_json("{\"monitored_windows\":[}").is_none());
    assert!(config_from_json("{\"monitored_windows\":[],\"auto_hide_delay\":-3,\"main_window_position\":null,\"preference_window_position\":null,\"dark_mode\":false}").is_none());
}

#[test]
fn trailing_text_is_refused() {
    let text = config_to_json(&WindowConfig::default());
    let with_trailing = format!("{} ", text);
    assert!(config_from_json(&with_trailing).is_none());
}

#[test]
fn loading_falls_back_to_default() {
    let missing = load_config_from_content(None);
    assert_configs_equal(&missing, &WindowConfig::default());
    let broken = load_config_from_content(Some("not a config"));
    assert_configs_equal(&broken, &WindowConfig::default());
    let c = WindowConfig {
        monitored_windows: vec!["Explorer".to_string()],
        auto_hide_delay: 9,
        main_window_position: None,
        preference_window_position: None,
        dark_mode: true,
    };
    let text = config_to_json(&c);
    let loaded = load_config_from_content(Some(&text));
    assert_configs_equal(&loaded, &c);
}
