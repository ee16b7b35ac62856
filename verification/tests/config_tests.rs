use wrx::config::Config;
use wrx::config::ConfigError;
use wrx::config::DomainEntry;
use wrx::config::default_domains;
use wrx::config::default_version;

fn entry(name: &str) -> DomainEntry {
    DomainEntry::new(String::from(name))
}

#[test]
fn defaults() {
    assert_eq!(default_version(), "v1");
    assert_eq!(default_domains().len(), 0);
}

#[test]
fn missing_file_stands_in_as_default_config() {
    let c = Config::default_config();
    assert_eq!(c.version, "v1");
    assert_eq!(c.domains.len(), 0);
}

#[test]
fn from_parts_applies_defaults() {
    let c = Config::from_parts(None, None).unwrap();
    assert_eq!(c.version, "v1");
    assert_eq!(c.domains.len(), 0);
}

#[test]
fn from_parts_keeps_given_fields() {
    let c = Config::from_parts(
        Some(String::from("v2")),
        Some(vec![entry("a.com"), entry("b.com")]),
    )
    .unwrap();
    assert_eq!(c.version, "v2");
    assert_eq!(c.domains.len(), 2);
    assert_eq!(c.domains[0].name, "a.com");
    assert_eq!(c.domains[1].name, "b.com");
}

#[test]
fn duplicate_domain_is_rejected() {
    let r = Config::from_parts(None, Some(vec![entry("example.com"), entry("example.com")]));
    match r {
        Err(ConfigError::DuplicateDomain(name)) => assert_eq!(name, "example.com"),
        _ => panic!("expected a duplicate-domain error"),
    }
}

#[test]
fn duplicate_detection_ignores_case() {
    let r = Config::from_parts(None, Some(vec![entry("example.com"), entry("EXAMPLE.COM")]));
    match r {
        Err(ConfigError::DuplicateDomain(name)) => assert_eq!(name, "EXAMPLE.COM"),
        _ => panic!("expected a duplicate-domain error"),
    }
}

#[test]
fn first_repeated_entry_is_named() {
    let r = Config::from_parts(
        None,
        Some(vec![entry("a.com"), entry("b.com"), entry("B.COM"), entry("a.com")]),
    );
    match r {
        Err(ConfigError::DuplicateDomain(name)) => assert_eq!(name, "B.COM"),
        _ => panic!("expected a duplicate-domain error"),
    }
}

#[test]
fn distinct_names_are_accepted() {
    let c = Config::from_parts(None, Some(vec![entry("a.com"), entry("b.com"), entry("c.com")]))
        .unwrap();
    assert_eq!(c.domains.len(), 3);
}
