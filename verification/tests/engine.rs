use watchdiff::engine::diff;
use watchdiff::event::DiffEvent;
use watchdiff::matcher::find_forward;

fn lines(words: &[&str]) -> Vec<String> {
    words.iter().map(|w| w.to_string()).collect()
}

fn same(text: &str) -> DiffEvent {
    DiffEvent::Same(text.to_string())
}

fn add(text: &str) -> DiffEvent {
    DiffEvent::Add(text.to_string())
}

fn del(text: &str) -> DiffEvent {
    DiffEvent::Del(text.to_string())
}

fn old_side(events: &[DiffEvent]) -> Vec<String> {
    let mut out = Vec::new();
    for e in events {
        if !e.is_add() {
            out.push(e.line().clone());
        }
    }
    out
}

fn new_side(events: &[DiffEvent]) -> Vec<String> {
    let mut out = Vec::new();
    for e in events {
        if !e.is_del() {
            out.push(e.line().clone());
        }
    }
    out
}

#[test]
fn identity_yields_only_same() {
    let s = lines(&["one", "two", "", "two", "three"]);
    assert_eq!(
        diff(&s, &s),
        vec![same("one"), same("two"), same(""), same("two"), same("three")]
    );
}

#[test]
fn identity_on_empty_snapshot() {
    let s = lines(&[]);
    assert_eq!(diff(&s, &s), Vec::<DiffEvent>::new());
}

#[test]
fn both_sides_are_preserved_in_order() {
    let old = lines(&["a", "b", "c", "b", "d", "", "e"]);
    let new = lines(&["b", "a", "x", "d", "d", "e", "", "f"]);
    let events = diff(&old, &new);
    assert_eq!(old_side(&events), old);
    assert_eq!(new_side(&events), new);
}

#[test]
fn both_sides_are_preserved_with_repeated_lines() {
    let old = lines(&["x", "x", "y", "x"]);
    let new = lines(&["y", "x", "x", "y", "y"]);
    let events = diff(&old, &new);
    assert_eq!(old_side(&events), old);
    assert_eq!(new_side(&events), new);
}

#[test]
fn pure_append() {
    assert_eq!(
        diff(&lines(&["a", "b"]), &lines(&["a", "b", "c"])),
        vec![same("a"), same("b"), add("c")]
    );
}

#[test]
fn pure_truncation() {
    assert_eq!(
        diff(&lines(&["a", "b", "c"]), &lines(&["a", "b"])),
        vec![same("a"), same("b"), del("c")]
    );
}

#[test]
fn total_replacement() {
    assert_eq!(diff(&lines(&["a"]), &lines(&["b"])), vec![del("a"), add("b")]);
}

#[test]
fn insertion_in_middle() {
    let events = diff(&lines(&["a", "c"]), &lines(&["a", "b", "c"]));
    assert_eq!(events.first(), Some(&same("a")));
    assert_eq!(events.last(), Some(&same("c")));
    assert_eq!(events.iter().filter(|e| **e == add("b")).count(), 1);
    assert_eq!(events, vec![same("a"), add("b"), same("c")]);
}

#[test]
fn removal_in_middle() {
    assert_eq!(
        diff(&lines(&["a", "b", "c"]), &lines(&["a", "c"])),
        vec![same("a"), del("b"), same("c")]
    );
}

#[test]
fn empty_to_nonempty() {
    assert_eq!(diff(&lines(&[]), &lines(&["x"])), vec![add("x")]);
}

#[test]
fn nonempty_to_empty() {
    assert_eq!(diff(&lines(&["x"]), &lines(&[])), vec![del("x")]);
}

#[test]
fn empty_to_empty() {
    assert_eq!(diff(&lines(&[]), &lines(&[])), Vec::<DiffEvent>::new());
}

#[test]
fn run_of_insertions_is_reported_line_by_line() {
    assert_eq!(
        diff(&lines(&["a", "d"]), &lines(&["a", "b", "c", "d"])),
        vec![same("a"), add("b"), add("c"), same("d")]
    );
}

#[test]
fn run_of_removals_is_reported_line_by_line() {
    assert_eq!(
        diff(&lines(&["a", "b", "c", "d"]), &lines(&["a", "d"])),
        vec![same("a"), del("b"), del("c"), same("d")]
    );
}

#[test]
fn insertion_is_preferred_to_removal() {
    // Both heads recur on the other side: the head of the newer side counts as inserted.
    assert_eq!(
        diff(&lines(&["a", "b"]), &lines(&["b", "a"])),
        vec![add("b"), same("a"), del("b")]
    );
}

#[test]
fn substitution_in_middle() {
    assert_eq!(
        diff(&lines(&["a", "b", "c"]), &lines(&["a", "x", "c"])),
        vec![same("a"), del("b"), add("x"), same("c")]
    );
}

#[test]
fn greedy_match_is_not_minimal() {
    // A minimal script would remove the first line only.
    assert_eq!(
        diff(&lines(&["a", "b", "a", "c"]), &lines(&["b", "a", "c"])),
        vec![add("b"), same("a"), del("b"), del("a"), same("c")]
    );
}

#[test]
fn trailing_empty_line_is_a_line() {
    assert_eq!(
        diff(&lines(&["a", ""]), &lines(&["a"])),
        vec![same("a"), del("")]
    );
    assert_eq!(
        diff(&lines(&["a"]), &lines(&["a", ""])),
        vec![same("a"), add("")]
    );
}

#[test]
fn remaining_lines_after_one_side_ends() {
    assert_eq!(
        diff(&lines(&["a"]), &lines(&["a", "b", "c", "b"])),
        vec![same("a"), add("b"), add("c"), add("b")]
    );
    assert_eq!(
        diff(&lines(&["a", "b", "c", "b"]), &lines(&["a"])),
        vec![same("a"), del("b"), del("c"), del("b")]
    );
}

#[test]
fn find_forward_returns_nearest_match() {
    let l = lines(&["a", "b", "a", "b"]);
    assert_eq!(find_forward(&l, 0, &"b".to_string()), Some(1));
    assert_eq!(find_forward(&l, 1, &"b".to_string()), Some(1));
    assert_eq!(find_forward(&l, 2, &"b".to_string()), Some(3));
    assert_eq!(find_forward(&l, 1, &"a".to_string()), Some(2));
}

#[test]
fn find_forward_without_match() {
    let l = lines(&["a", "b", "a", "b"]);
    assert_eq!(find_forward(&l, 0, &"c".to_string()), None);
    assert_eq!(find_forward(&l, 3, &"a".to_string()), None);
    assert_eq!(find_forward(&l, 4, &"a".to_string()), None);
    assert_eq!(find_forward(&l, 9, &"a".to_string()), None);
    assert_eq!(find_forward(&lines(&[]), 0, &"a".to_string()), None);
}

#[test]
fn event_accessors() {
    assert_eq!(same("s").line(), "s");
    assert_eq!(add("a").line(), "a");
    assert_eq!(del("d").line(), "d");
    assert!(same("s").is_same() && !same("s").is_add() && !same("s").is_del());
    assert!(!add("a").is_same() && add("a").is_add() && !add("a").is_del());
    assert!(!del("d").is_same() && !del("d").is_add() && del("d").is_del());
}
