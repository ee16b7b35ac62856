use wrx::config::DomainEntry;
use wrx::dispatch::ProbeKind;
use wrx::dispatch::ProbeOutcome;
use wrx::dispatch::ProbeStatus;
use wrx::report::exit_code;
use wrx::report::kind_text;
use wrx::report::render_list;
use wrx::report::render_outcomes;
use wrx::resolve::ResolvedDomainSet;

fn outcome(name: &str, kind: ProbeKind, status: ProbeStatus) -> ProbeOutcome {
    ProbeOutcome { domain: DomainEntry::new(String::from(name)), kind, status }
}

#[test]
fn kind_labels() {
    assert_eq!(kind_text(ProbeKind::Host), "Host");
    assert_eq!(kind_text(ProbeKind::Dig), "Dig");
    assert_eq!(kind_text(ProbeKind::Ssl), "Ssl");
    assert_eq!(kind_text(ProbeKind::Whois), "Whois");
}

#[test]
fn outcome_lines_are_exact() {
    let outcomes = vec![
        outcome("a.com", ProbeKind::Host, ProbeStatus::Passed(String::new())),
        outcome("a.com", ProbeKind::Dig, ProbeStatus::Passed(String::from("93.184.216.34"))),
        outcome("b.com", ProbeKind::Ssl, ProbeStatus::Failed(String::from("handshake refused"))),
        outcome("b.com", ProbeKind::Whois, ProbeStatus::TimedOut),
    ];
    let (lines, ok) = render_outcomes(&outcomes);
    assert_eq!(lines.len(), 4);
    assert_eq!(lines[0], "a.com Host: Ok");
    assert_eq!(lines[1], "a.com Dig: Ok 93.184.216.34");
    assert_eq!(lines[2], "b.com Ssl: Failed: handshake refused");
    assert_eq!(lines[3], "b.com Whois: TimedOut");
    assert!(!ok);
}

#[test]
fn success_is_every_outcome_ok() {
    let outcomes = vec![
        outcome("a.com", ProbeKind::Host, ProbeStatus::Passed(String::new())),
        outcome("b.com", ProbeKind::Host, ProbeStatus::Passed(String::new())),
    ];
    let (lines, ok) = render_outcomes(&outcomes);
    assert_eq!(lines.len(), 2);
    assert!(ok);
}

#[test]
fn a_timeout_counts_as_failure() {
    let outcomes = vec![
        outcome("a.com", ProbeKind::Host, ProbeStatus::Passed(String::new())),
        outcome("b.com", ProbeKind::Host, ProbeStatus::TimedOut),
    ];
    let (_, ok) = render_outcomes(&outcomes);
    assert!(!ok);
}

#[test]
fn empty_outcomes_report_success() {
    let outcomes: Vec<ProbeOutcome> = Vec::new();
    let (lines, ok) = render_outcomes(&outcomes);
    assert_eq!(lines.len(), 0);
    assert!(ok);
}

#[test]
fn list_mode_renders_names_in_order() {
    let resolved = ResolvedDomainSet {
        entries: vec![
            DomainEntry::new(String::from("b.com")),
            DomainEntry::new(String::from("a.com")),
        ],
    };
    let lines = render_list(&resolved);
    assert_eq!(lines, vec!["b.com", "a.com"]);
}

#[test]
fn exit_codes() {
    assert_eq!(exit_code(true), 0);
    assert_eq!(exit_code(false), 1);
}
