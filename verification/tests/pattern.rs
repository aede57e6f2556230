use fs_pro::pattern::check_entry_text;
use fs_pro::pattern::check_pattern;

#[test]
fn star_matches_any_run_of_characters() {
    assert!(check_pattern("*.txt", "a.txt"));
    assert!(check_pattern("*.txt", ".txt"));
    assert!(!check_pattern("*.txt", "b.png"));
    assert!(!check_pattern("*.txt", "txt"));
}

#[test]
fn match_is_a_substring_search() {
    // the pattern may match anywhere within the name, not only the whole of it
    assert!(check_pattern("*.txt", "x.txt.png"));
    assert!(check_pattern("b", "abc"));
    assert!(!check_pattern("d", "abc"));
}

#[test]
fn dot_is_literal() {
    assert!(check_pattern("a.c", "xa.cy"));
    assert!(!check_pattern("a.c", "abc"));
}

#[test]
fn star_in_the_middle() {
    assert!(check_pattern("a*c", "abbbc"));
    assert!(check_pattern("a*c", "ac"));
    assert!(!check_pattern("a*c", "ab"));
}

#[test]
fn empty_pattern_always_matches() {
    assert!(check_pattern("", ""));
    assert!(check_pattern("", "anything"));
}

#[test]
fn several_stars() {
    assert!(check_pattern("a*b*c", "a-b-c"));
    assert!(check_pattern("a*b*c", "abc"));
    assert!(!check_pattern("a*b*c", "acb"));
}

#[test]
fn entry_text_rules() {
    assert!(check_entry_text("hello.txt"));
    assert!(check_entry_text("*.txt"));
    assert!(check_entry_text(""));
    assert!(!check_entry_text("a/b"));
    assert!(!check_entry_text("a\"b"));
    assert!(!check_entry_text("a\\b"));
}
