use revd::install::{hook_line, installed_message, post_commit_path, run, script, InstallError};

#[test]
fn installs_into_the_repository_hooks() {
    let w = run(Some("/work/proj"), "/usr/local/bin/revd", None).unwrap();
    assert_eq!(w.path, "/work/proj/.git/hooks/post-commit");
    assert_eq!(
        w.contents,
        "#!/bin/sh\n# installed by revd\n/usr/local/bin/revd hook post-commit >/dev/null 2>&1 || true\n"
    );
}

#[test]
fn refuses_outside_a_repository() {
    let e = run(None, "/usr/local/bin/revd", None).unwrap_err();
    assert!(matches!(e, InstallError::NotARepo));
    assert_eq!(e.message(), "not inside a git repository");
}

#[test]
fn refuses_to_replace_a_foreign_hook() {
    let e = run(Some("/work/proj"), "/usr/local/bin/revd", Some("#!/bin/sh\nmake lint\n")).unwrap_err();
    match &e {
        InstallError::ForeignHook { path, line } => {
            assert_eq!(path, "/work/proj/.git/hooks/post-commit");
            assert_eq!(line, "/usr/local/bin/revd hook post-commit >/dev/null 2>&1 || true");
        },
        _ => panic!("expected a foreign hook"),
    }
    assert_eq!(
        e.message(),
        "/work/proj/.git/hooks/post-commit already exists and is not a revd hook — add this line yourself:\n  /usr/local/bin/revd hook post-commit >/dev/null 2>&1 || true"
    );
}

#[test]
fn reinstalling_over_its_own_hook_is_fine() {
    let exe = "/usr/local/bin/revd";
    let first = script(exe);
    let again = run(Some("/work/proj"), exe, Some(&first)).unwrap();
    assert_eq!(again.contents, first);
    // an unreadable hook reads as empty, which is not revd's
    assert!(run(Some("/work/proj"), exe, Some("")).is_err());
}

#[test]
fn pieces() {
    assert_eq!(post_commit_path("/r/"), "/r/.git/hooks/post-commit");
    assert_eq!(hook_line("revd"), "revd hook post-commit >/dev/null 2>&1 || true");
    assert_eq!(installed_message("/r/.git/hooks/post-commit"), "installed post-commit hook in /r/.git/hooks/post-commit\nstart the worker with:  revd daemon\n");
}
