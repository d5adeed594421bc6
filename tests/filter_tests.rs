use bark::filter::ActiveFilter;

#[test]
fn test_substring_match_case_insensitive() {
    let filter = ActiveFilter::new("error".to_string(), false);
    assert!(filter.matches("ERROR: something failed"));
    assert!(filter.matches("Error: something failed"));
    assert!(filter.matches("an error occurred"));
}

#[test]
fn test_substring_no_match() {
    let filter = ActiveFilter::new("error".to_string(), false);
    assert!(!filter.matches("warning: something happened"));
    assert!(!filter.matches("INFO: all good"));
}

#[test]
fn test_regex_match_valid() {
    let filter = ActiveFilter::new(r"ERROR|WARN".to_string(), true);
    assert!(filter.matches("ERROR: something failed"));
    assert!(filter.matches("WARN: something happened"));
    assert!(!filter.matches("INFO: all good"));
}

#[test]
fn test_regex_match_with_pattern() {
    let filter = ActiveFilter::new(r"\d{3}-\d{4}".to_string(), true);
    assert!(filter.matches("Phone: 555-1234"));
    assert!(!filter.matches("Phone: 5551234"));
}

#[test]
fn test_regex_invalid_falls_back_to_substring() {
    let filter = ActiveFilter::new("[invalid".to_string(), true);
    assert!(filter.matches("this has [invalid in it"));
    assert!(!filter.matches("this does not"));
}

#[test]
fn test_regex_fallback_is_case_sensitive() {
    let filter = ActiveFilter::new("[Bad".to_string(), true);
    assert!(filter.matches("a [Bad line"));
    assert!(!filter.matches("a [bad line"));
}

#[test]
fn test_regex_mode_is_case_sensitive() {
    let filter = ActiveFilter::new("ERROR".to_string(), true);
    assert!(!filter.matches("error: lower"));
}

#[test]
fn test_find_matches_substring_single() {
    let filter = ActiveFilter::new("error".to_string(), false);
    let matches = filter.find_matches("an ERROR occurred");
    assert_eq!(matches.len(), 1);
    assert_eq!(matches[0].start, 3);
    assert_eq!(matches[0].end, 8);
}

#[test]
fn test_find_matches_substring_multiple() {
    let filter = ActiveFilter::new("test".to_string(), false);
    let matches = filter.find_matches("test one TEST two test");
    assert_eq!(matches.len(), 3);
}

#[test]
fn test_find_matches_substring_non_overlapping() {
    let filter = ActiveFilter::new("aa".to_string(), false);
    let matches = filter.find_matches("aaaaa");
    assert_eq!(matches.len(), 2);
    assert_eq!((matches[0].start, matches[0].end), (0, 2));
    assert_eq!((matches[1].start, matches[1].end), (2, 4));
}

#[test]
fn test_find_matches_regex() {
    let filter = ActiveFilter::new(r"\d+".to_string(), true);
    let matches = filter.find_matches("abc 123 def 456");
    assert_eq!(matches.len(), 2);
    assert_eq!(matches[0].start, 4);
    assert_eq!(matches[0].end, 7);
    assert_eq!(matches[1].start, 12);
    assert_eq!(matches[1].end, 15);
}

#[test]
fn test_find_matches_empty_pattern() {
    let filter = ActiveFilter::new("".to_string(), false);
    let matches = filter.find_matches("some text");
    assert!(matches.is_empty());
}

#[test]
fn test_find_matches_no_match() {
    let filter = ActiveFilter::new("xyz".to_string(), false);
    let matches = filter.find_matches("abc def");
    assert!(matches.is_empty());
}

#[test]
fn test_find_matches_invalid_regex_fallback() {
    let filter = ActiveFilter::new("[bad".to_string(), true);
    let matches = filter.find_matches("has [bad regex");
    assert_eq!(matches.len(), 1);
}

#[test]
fn test_invalid_regex_scenario() {
    let filter = ActiveFilter::new("[bad".to_string(), true);
    assert!(filter.matches("has [bad regex"));
    assert!(!filter.matches("clean line"));
}

#[test]
fn test_filter_accessors_and_duplicate() {
    let filter = ActiveFilter::new("Warn".to_string(), true);
    let copy = filter.duplicate();
    assert_eq!(copy.pattern(), "Warn");
    assert!(copy.is_regex());
    assert!(copy.matches("Warn here"));
}
