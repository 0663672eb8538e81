use grepc::lines::split_lines;
use grepc::matcher::line_matches;
use grepc::matcher::replace_pattern;

#[test]
fn substring_in_the_middle_matches() {
    assert!(line_matches("banana", "ana"));
}

#[test]
fn absent_substring_does_not_match() {
    assert!(!line_matches("banana", "x"));
}

#[test]
fn pattern_longer_than_the_line_does_not_match() {
    assert!(!line_matches("ab", "abc"));
}

#[test]
fn whole_line_matches_itself() {
    assert!(line_matches("apple", "apple"));
}

#[test]
fn empty_pattern_matches_every_line() {
    assert!(line_matches("", ""));
    assert!(line_matches("banana", ""));
}

#[test]
fn every_occurrence_is_replaced() {
    assert_eq!(replace_pattern("banana", "a", "A"), "bAnAnA");
}

#[test]
fn replacement_is_greedy_from_the_left() {
    assert_eq!(replace_pattern("aaa", "aa", "X"), "Xa");
}

#[test]
fn replacement_may_be_longer_than_the_pattern() {
    assert_eq!(replace_pattern("banana", "na", "<na>"), "ba<na><na>");
}

#[test]
fn empty_pattern_inserts_the_replacement_once_at_the_start() {
    assert_eq!(replace_pattern("abc", "", "[]"), "[]abc");
}

#[test]
fn lines_split_on_newlines() {
    let lines = split_lines("apple pie\nbanana\nno apples here");
    assert_eq!(
        lines,
        vec![
            "apple pie".to_string(),
            "banana".to_string(),
            "no apples here".to_string(),
        ]
    );
}

#[test]
fn trailing_newline_yields_no_empty_line() {
    assert_eq!(split_lines("a\nb\n"), vec!["a".to_string(), "b".to_string()]);
}

#[test]
fn unterminated_final_line_is_kept() {
    assert_eq!(split_lines("a\nb"), vec!["a".to_string(), "b".to_string()]);
}

#[test]
fn carriage_return_before_a_newline_is_stripped() {
    assert_eq!(split_lines("a\r\nb\r\n"), vec!["a".to_string(), "b".to_string()]);
}

#[test]
fn carriage_return_without_a_newline_is_kept() {
    assert_eq!(split_lines("a\r"), vec!["a\r".to_string()]);
}

#[test]
fn empty_content_has_no_lines() {
    assert_eq!(split_lines(""), vec![] as Vec<String>);
}

#[test]
fn blank_lines_survive_in_the_middle() {
    assert_eq!(
        split_lines("a\n\nb"),
        vec!["a".to_string(), "".to_string(), "b".to_string()]
    );
}
