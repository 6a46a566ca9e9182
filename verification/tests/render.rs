use watchdiff::event::DiffEvent;
use watchdiff::render::{diff_banner, origin_banner, styled_banner};

#[test]
fn plain_text_marks_each_kind() {
    assert_eq!(DiffEvent::Same("line".to_string()).plain_text(), "   line");
    assert_eq!(DiffEvent::Add("line".to_string()).plain_text(), " + line");
    assert_eq!(DiffEvent::Del("line".to_string()).plain_text(), " - line");
}

#[test]
fn plain_text_of_empty_line_is_the_mark() {
    assert_eq!(DiffEvent::Same(String::new()).plain_text(), "   ");
    assert_eq!(DiffEvent::Add(String::new()).plain_text(), " + ");
    assert_eq!(DiffEvent::Del(String::new()).plain_text(), " - ");
}

#[test]
fn styled_text_of_unchanged_line_is_plain() {
    assert_eq!(DiffEvent::Same("line".to_string()).styled_text(), "   line");
}

#[test]
fn styled_text_holds_the_plain_text() {
    assert!(DiffEvent::Add("line".to_string()).styled_text().contains(" + line"));
    assert!(DiffEvent::Del("line".to_string()).styled_text().contains(" - line"));
}

#[test]
fn banners_name_the_moment() {
    assert_eq!(origin_banner("2024-01-02 03:04:05"), "Origin at 2024-01-02 03:04:05");
    assert_eq!(diff_banner("2024-01-02 03:04:05"), "Diff at 2024-01-02 03:04:05");
    assert_eq!(origin_banner(""), "Origin at ");
}

#[test]
fn styled_banner_holds_the_text() {
    assert!(styled_banner("Diff at noon").contains("Diff at noon"));
}
