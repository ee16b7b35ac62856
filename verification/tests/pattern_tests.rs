use wrx::pattern::names_ieq;
use wrx::pattern::pattern_matches;

#[test]
fn star_matches_everything() {
    assert!(pattern_matches("*", "example.com"));
    assert!(pattern_matches("*", ""));
    assert!(pattern_matches("*", "a"));
    assert!(pattern_matches("*", "sub.domain.example.org"));
}

#[test]
fn literal_match_is_case_insensitive() {
    assert!(pattern_matches("example.com", "example.com"));
    assert!(pattern_matches("EXAMPLE.com", "example.COM"));
    assert!(pattern_matches("Example.Com", "eXAMPLE.cOM"));
    assert!(!pattern_matches("example.com", "example.org"));
}

#[test]
fn question_mark_matches_one_character() {
    assert!(pattern_matches("?.com", "a.com"));
    assert!(!pattern_matches("?.com", ".com"));
    assert!(!pattern_matches("?.com", "ab.com"));
    assert!(pattern_matches("a?c", "abc"));
    assert!(pattern_matches("a?c", "aXc"));
    assert!(!pattern_matches("a?c", "ac"));
}

#[test]
fn star_matches_any_run() {
    assert!(pattern_matches("*.example.com", "www.example.com"));
    assert!(pattern_matches("*.example.com", "a.b.example.com"));
    assert!(!pattern_matches("*.example.com", "example.com"));
    assert!(pattern_matches("a.*", "a.com"));
    assert!(!pattern_matches("a.*", "b.com"));
    assert!(pattern_matches("a*z", "az"));
    assert!(pattern_matches("a*z", "abcz"));
    assert!(!pattern_matches("a*z", "abc"));
}

#[test]
fn multiple_wildcards() {
    assert!(pattern_matches("*.*.example.com", "a.b.example.com"));
    assert!(!pattern_matches("*.*.example.com", "b.example.com"));
    assert!(pattern_matches("**", "anything"));
    assert!(pattern_matches("**", ""));
}

#[test]
fn empty_pattern_matches_only_empty() {
    assert!(pattern_matches("", ""));
    assert!(!pattern_matches("", "a"));
}

#[test]
fn names_ieq_compares_without_case() {
    assert!(names_ieq("example.com", "EXAMPLE.COM"));
    assert!(names_ieq("", ""));
    assert!(!names_ieq("example.com", "example.org"));
    assert!(!names_ieq("example.com", "example.com2"));
}
