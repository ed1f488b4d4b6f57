use revd::analyze::{Author, Finding, Severity, Status};
use revd::surface::{applescript_quote, is_alert, notification};

fn finding(file: &str, line: u32, sev: Severity, confidence: u32, title: &str) -> Finding {
    Finding {
        id: format!("f_{}{}", file, line),
        repo: "/r".to_string(),
        sha: "0123456789abcdef".to_string(),
        file: file.to_string(),
        line_start: line,
        line_end: line,
        lang: "go".to_string(),
        category: "go.errors.unchecked".to_string(),
        severity: sev,
        confidence,
        source: "heuristic:x".to_string(),
        title: title.to_string(),
        evidence: String::new(),
        fix_hint: String::new(),
        author: Author::Unknown,
        touched_after_agent: false,
        status: Status::Open,
        created_at: String::new(),
    }
}

#[test]
fn alerts_are_serious_and_confident() {
    assert!(is_alert(&finding("a.go", 1, Severity::High, 90, "t")));
    assert!(is_alert(&finding("a.go", 1, Severity::Block, 99, "t")));
    assert!(!is_alert(&finding("a.go", 1, Severity::High, 89, "t")));
    assert!(!is_alert(&finding("a.go", 1, Severity::Medium, 99, "t")));
    let mut dismissed = finding("a.go", 1, Severity::Block, 99, "t");
    dismissed.status = Status::Dismissed;
    assert!(!is_alert(&dismissed));
}

#[test]
fn silence_without_alerts() {
    assert!(notification(&vec![]).is_none());
    assert!(notification(&vec![finding("a.go", 1, Severity::Low, 99, "t")]).is_none());
}

#[test]
fn one_notification_listing_at_most_three() {
    let fs = vec![
        finding("a.go", 1, Severity::High, 95, "one"),
        finding("b.go", 2, Severity::Low, 95, "quiet"),
        finding("c.go", 3, Severity::Block, 99, "two"),
        finding("d.go", 4, Severity::High, 90, "three"),
        finding("e.go", 5, Severity::High, 90, "four"),
        finding("f.go", 6, Severity::High, 90, "five"),
    ];
    let n = notification(&fs).unwrap();
    assert_eq!(n.sha, "0123456789abcdef");
    assert_eq!(n.title, "revd — 5 finding(s) in 0123456");
    assert_eq!(n.body, "a.go:1 one\nc.go:3 two\nd.go:4 three\n+2 more");
}

#[test]
fn a_short_sha_is_shown_whole() {
    let mut f = finding("a.go", 12, Severity::High, 95, "x");
    f.sha = "abc".to_string();
    let n = notification(&vec![f]).unwrap();
    assert_eq!(n.title, "revd — 1 finding(s) in abc");
    assert_eq!(n.body, "a.go:12 x");
}

#[test]
fn applescript_strings_are_escaped() {
    assert_eq!(applescript_quote("plain"), "\"plain\"");
    assert_eq!(applescript_quote("a \"b\" \\c"), "\"a \\\"b\\\" \\\\c\"");
}
