use revd::daemon::{handle, is_event_line, Action, Event};
use revd::git::{head, hooks_dir, join_path, toplevel};
use revd::hook::{dispatch, post_commit, HookEvent};
use revd::taxonomy::{lookup, nodes};
use revd::analyze::Severity;

#[test]
fn the_worker_analyses_commits_and_ignores_pings() {
    assert_eq!(handle(Event::Ping), Action::Nothing);
    assert_eq!(
        handle(Event::Commit { repo: "/r".to_string(), sha: "abc".to_string() }),
        Action::Analyse { repo: "/r".to_string(), sha: "abc".to_string() }
    );
    assert!(is_event_line("{\"kind\":\"ping\"}"));
    assert!(!is_event_line("  \t "));
}

#[test]
fn hooks_dispatch_by_name() {
    assert_eq!(dispatch("post-commit"), HookEvent::PostCommit);
    assert_eq!(dispatch("pre-push"), HookEvent::Unknown);
    match post_commit(Some("/r".to_string()), Some("abc".to_string())) {
        Some(Event::Commit { repo, sha }) => {
            assert_eq!(repo, "/r");
            assert_eq!(sha, "abc");
        },
        other => panic!("unexpected {:?}", other),
    }
    assert!(post_commit(None, Some("abc".to_string())).is_none());
    assert!(post_commit(Some("/r".to_string()), None).is_none());
}

#[test]
fn git_output_is_trimmed() {
    assert_eq!(toplevel("/work/proj\n"), "/work/proj");
    assert_eq!(head("  abc123\n"), "abc123");
    assert_eq!(hooks_dir("/work/proj", ".git/hooks\n"), "/work/proj/.git/hooks");
    assert_eq!(hooks_dir("/work/proj", "/abs/hooks\n"), "/abs/hooks");
    assert_eq!(join_path("/a/", "b"), "/a/b");
    assert_eq!(join_path("", "b"), "b");
}

#[test]
fn taxonomy_lookup() {
    assert_eq!(nodes().len(), 31);
    let n = lookup("go.errors.unchecked").unwrap();
    assert_eq!(n.path, "go.errors.unchecked");
    assert_eq!(n.default_severity, Severity::High);
    assert_eq!(lookup("common.secrets.credential").unwrap().default_severity, Severity::Block);
    assert!(lookup("style.whitespace").is_none());
}
