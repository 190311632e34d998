use companion_core::titles::{filter_visible_titles, is_blank_title, WindowEntry};

fn entry(visible: bool, title: &str) -> WindowEntry {
    WindowEntry { visible, title: title.to_string() }
}

#[test]
fn only_visible_windows_with_real_titles_are_listed() {
    let entries = vec![
        entry(true, "Notepad"),
        entry(false, "Hidden window"),
        entry(true, ""),
        entry(true, "   "),
        entry(true, "\t\r\n"),
        entry(true, "Explorer"),
        entry(false, ""),
        entry(true, " padded but real "),
    ];
    let titles = filter_visible_titles(entries);
    assert_eq!(
        titles,
        vec!["Notepad".to_string(), "Explorer".to_string(), " padded but real ".to_string()]
    );
}

#[test]
fn enumeration_order_is_kept() {
    let entries = vec![entry(true, "C"), entry(true, "A"), entry(true, "B")];
    assert_eq!(filter_visible_titles(entries), vec!["C".to_string(), "A".to_string(), "B".to_string()]);
}

#[test]
fn blank_titles_cover_unicode_white_space() {
    assert!(is_blank_title(&"".to_string()));
    assert!(is_blank_title(&" \t\r\n".to_string()));
    assert!(is_blank_title(&"\u{00A0}\u{3000}\u{2003}".to_string()));
    assert!(!is_blank_title(&" x ".to_string()));
    assert!(!is_blank_title(&"\u{1F600}".to_string()));
}

#[test]
fn an_empty_enumeration_lists_nothing() {
    assert!(filter_visible_titles(Vec::new()).is_empty());
}
