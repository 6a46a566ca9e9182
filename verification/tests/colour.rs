use colored::control::{set_override, unset_override};
use watchdiff::event::DiffEvent;
use watchdiff::render::styled_banner;

#[test]
fn styling_follows_the_colour_switch() {
    set_override(true);
    assert_eq!(styled_banner("Diff at noon"), "\x1B[1;4mDiff at noon\x1B[0m");
    assert_eq!(styled_banner(""), "\x1B[1;4m\x1B[0m");
    assert_eq!(DiffEvent::Add("line".to_string()).styled_text(), "\x1B[32m + line\x1B[0m");
    assert_eq!(DiffEvent::Del("line".to_string()).styled_text(), "\x1B[31m - line\x1B[0m");
    assert_eq!(DiffEvent::Same("line".to_string()).styled_text(), "   line");
    assert_eq!(DiffEvent::Add("a\x1B[1mb".to_string()).styled_text(), "\x1B[32m + a\x1B[1mb\x1B[0m");

    set_override(false);
    assert_eq!(styled_banner("Diff at noon"), "Diff at noon");
    assert_eq!(DiffEvent::Add("line".to_string()).styled_text(), " + line");
    assert_eq!(DiffEvent::Del("line".to_string()).styled_text(), " - line");
    assert_eq!(DiffEvent::Same("line".to_string()).styled_text(), "   line");

    unset_override();
}
