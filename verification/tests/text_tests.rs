use emtk::cli::{detailed_logs, most_recent, newest_first};
use emtk::hotkey::{hotkey_for, Hotkey};
use emtk::text::{format_authors, text_is};

#[test]
fn authors_strip_addresses_and_join() {
    assert_eq!(
        format_authors("Jane Doe <jane@example.com>:John Roe <john@example.com>"),
        "Jane Doe, John Roe"
    );
}

#[test]
fn authors_without_addresses() {
    assert_eq!(format_authors("Jane:John:Alex"), "Jane, John, Alex");
}

#[test]
fn authors_single_and_empty() {
    assert_eq!(format_authors("Solo <solo@example.com>"), "Solo");
    assert_eq!(format_authors(""), "");
    assert_eq!(format_authors("a:"), "a, ");
}

#[test]
fn authors_marker_needs_space() {
    assert_eq!(format_authors("Name<x>"), "Name<x>");
    assert_eq!(format_authors("Na <x> <y>"), "Na");
    assert_eq!(format_authors("Ends with <"), "Ends with");
    assert_eq!(format_authors("Ends with "), "Ends with ");
}

#[test]
fn text_is_compares_characters() {
    assert!(text_is("abc", "abc"));
    assert!(!text_is("abc", "abd"));
    assert!(!text_is("abc", "ab"));
    assert!(text_is("", ""));
}

#[test]
fn hotkeys_need_ctrl_only() {
    assert_eq!(hotkey_for(true, "w"), Some(Hotkey::ClosedTab));
    assert_eq!(hotkey_for(true, "t"), Some(Hotkey::NewTab));
    assert_eq!(hotkey_for(true, "r"), Some(Hotkey::RefreshTab));
    assert_eq!(hotkey_for(false, "w"), None);
    assert_eq!(hotkey_for(true, "W"), None);
    assert_eq!(hotkey_for(true, "x"), None);
}

#[test]
fn silent_overrides_verbose() {
    assert!(detailed_logs(false, true));
    assert!(!detailed_logs(true, true));
    assert!(!detailed_logs(false, false));
    assert!(!detailed_logs(true, false));
}

#[test]
fn history_most_recent_is_last() {
    let h = vec!["a".to_string(), "b".to_string(), "c".to_string()];
    assert_eq!(most_recent(&h).map(|s| s.as_str()), Some("c"));
    let empty: Vec<String> = Vec::new();
    assert_eq!(most_recent(&empty), None);
}

#[test]
fn history_listed_newest_first() {
    let h = vec!["a".to_string(), "b".to_string(), "c".to_string()];
    assert_eq!(newest_first(&h), vec!["c".to_string(), "b".to_string(), "a".to_string()]);
    let empty: Vec<String> = Vec::new();
    assert!(newest_first(&empty).is_empty());
}
