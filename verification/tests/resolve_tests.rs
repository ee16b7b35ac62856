use wrx::config::Config;
use wrx::config::DomainEntry;
use wrx::resolve::effective_patterns;
use wrx::resolve::matches_any;
use wrx::resolve::resolve;

fn config_of(names: &[&str]) -> Config {
    let entries: Vec<DomainEntry> = names
        .iter()
        .map(|n| DomainEntry::new(String::from(*n)))
        .collect();
    Config::from_parts(None, Some(entries)).unwrap()
}

fn patterns_of(ps: &[&str]) -> Vec<String> {
    ps.iter().map(|p| String::from(*p)).collect()
}

fn resolved_names(patterns: &[&str], names: &[&str]) -> Vec<String> {
    let config = config_of(names);
    let r = resolve(&patterns_of(patterns), &config);
    r.entries.iter().map(|e| e.name.clone()).collect()
}

#[test]
fn star_resolves_all_in_original_order() {
    let got = resolved_names(&["*"], &["b.com", "a.com", "c.org"]);
    assert_eq!(got, vec!["b.com", "a.com", "c.org"]);
}

#[test]
fn resolution_is_a_subset_that_matches() {
    let got = resolved_names(&["a.*"], &["a.com", "b.com", "a.org"]);
    assert_eq!(got, vec!["a.com", "a.org"]);
}

#[test]
fn overlapping_patterns_yield_no_duplicates() {
    let got = resolved_names(&["*", "a.*", "*.com"], &["a.com", "b.com"]);
    assert_eq!(got, vec!["a.com", "b.com"]);
}

#[test]
fn no_match_is_an_empty_set() {
    let got = resolved_names(&["z.*"], &["a.com", "b.com"]);
    assert_eq!(got.len(), 0);
}

#[test]
fn no_patterns_select_nothing() {
    let got = resolved_names(&[], &["a.com", "b.com"]);
    assert_eq!(got.len(), 0);
}

#[test]
fn resolution_ignores_case() {
    let got = resolved_names(&["A.*"], &["a.com", "b.com"]);
    assert_eq!(got, vec!["a.com"]);
}

#[test]
fn pattern_order_does_not_change_result_order() {
    let a = resolved_names(&["b.*", "a.*"], &["a.com", "b.com"]);
    let b = resolved_names(&["a.*", "b.*"], &["a.com", "b.com"]);
    assert_eq!(a, b);
    assert_eq!(a, vec!["a.com", "b.com"]);
}

#[test]
fn matches_any_is_a_disjunction() {
    let ps = patterns_of(&["a.*", "b.*"]);
    assert!(matches_any(&ps, "a.com"));
    assert!(matches_any(&ps, "b.org"));
    assert!(!matches_any(&ps, "c.net"));
    let none: Vec<String> = Vec::new();
    assert!(!matches_any(&none, "a.com"));
}

#[test]
fn omitted_patterns_default_to_star() {
    let got = effective_patterns(Vec::new());
    assert_eq!(got, vec!["*"]);
    let kept = effective_patterns(patterns_of(&["a.*"]));
    assert_eq!(kept, vec!["a.*"]);
}
