use revd::hooks::{hook_path, render, HookPlan, Manager};
use revd::lang::{Entry, Lang, Listing};
use revd::plan::{apply, build, init, resolve_root, Probe, Status, Survey, Write};

const ROOT: &str = "/work/proj";

/// A survey of a project holding `files` (relative paths), with a `.git`
/// directory when `git` is set, no tools installed, and the given hook.
fn survey(files: &[&str], git: bool, hook: Option<&str>) -> Survey {
    let mut entries: Vec<Entry> = Vec::new();
    if git {
        entries.push(Entry { dir: Vec::new(), name: ".git".to_string(), is_dir: true });
    }
    for f in files {
        let parts: Vec<String> = f.split('/').map(|s| s.to_string()).collect();
        let (name, dirs) = parts.split_last().unwrap();
        for k in 0..dirs.len() {
            let dir = dirs[..k].to_vec();
            let name = dirs[k].clone();
            if !entries.iter().any(|e| e.is_dir && e.dir == dir && e.name == name) {
                entries.push(Entry { dir, name, is_dir: true });
            }
        }
        entries.push(Entry { dir: dirs.to_vec(), name: name.clone(), is_dir: false });
    }
    Survey {
        root: ROOT.to_string(),
        listing: Listing { entries },
        probes: Vec::new(),
        hooks_dir: None,
        existing_hook: hook.map(|h| h.to_string()),
    }
}

/// The same project after `writes` landed on disk.
fn after(s: &Survey, writes: &[Write]) -> Survey {
    let mut next = s.clone();
    let hook = hook_path(ROOT, None);
    for w in writes {
        if w.path == hook {
            next.existing_hook = Some(w.contents.clone());
        } else {
            let name = w.path.strip_prefix(&format!("{}/", ROOT)).unwrap().to_string();
            next.listing.entries.push(Entry { dir: Vec::new(), name, is_dir: false });
        }
    }
    next
}

fn ids(s: &Survey) -> Vec<&'static str> {
    build(s).tools.iter().map(|t| t.spec.id).collect()
}

#[test]
fn plans_go_tools_for_a_go_project() {
    let d = survey(&["go.mod"], true, None);
    let p = build(&d);
    assert_eq!(p.languages(), vec![Lang::Go]);
    let ids = ids(&d);
    assert!(ids.contains(&"golangci-lint"));
    assert!(ids.contains(&"gitleaks"), "secrets tool applies to every project");
    assert!(!ids.contains(&"ruff"), "python tools must not appear");
}

#[test]
fn respects_an_existing_config() {
    let d = survey(&["go.mod", ".golangci.yml"], true, None);
    let p = build(&d);
    let gcl = p.tools.iter().find(|t| t.spec.id == "golangci-lint").unwrap();
    assert!(matches!(gcl.config, Status::Exists(_)));
    assert!(!gcl.will_write());
}

#[test]
fn apply_writes_configs_and_never_clobbers() {
    let d = survey(&["go.mod"], true, None);
    let p = build(&d);
    let written = apply(&p, &d.listing, false, d.existing_hook.as_deref());
    assert!(written.iter().any(|w| w.path.ends_with(".golangci.yml")));

    // user edits the generated file; a second run must not undo that
    let d2 = after(&d, &written);
    let p2 = build(&d2);
    let again = apply(&p2, &d2.listing, false, d2.existing_hook.as_deref());
    assert!(again.iter().all(|w| !w.path.ends_with(".golangci.yml")));
}

#[test]
fn polyglot_project_gets_tools_for_every_language() {
    let d = survey(&["go.mod", "web/package.json", "Cargo.toml"], true, None);
    let ids = ids(&d);
    assert!(ids.contains(&"golangci-lint"));
    assert!(ids.contains(&"oxlint"));
    assert!(ids.contains(&"clippy"));
}

#[test]
fn detects_a_foreign_hook_and_leaves_it_alone() {
    let mine = "#!/bin/sh\necho mine\n";
    let d = survey(&["go.mod"], true, Some(mine));
    let p = build(&d);
    assert!(matches!(p.hook, HookPlan::Foreign(_)));
    let written = apply(&p, &d.listing, false, Some(mine));
    assert!(written.iter().all(|w| w.path != hook_path(ROOT, None)), "a foreign hook must survive untouched");
}

#[test]
fn rerunning_init_writes_nothing() {
    let d = survey(&["go.mod"], true, None);
    let p = build(&d);
    let first = init(&p, &d.listing, false, d.existing_hook.as_deref());
    assert!(!first.is_empty());
    let d2 = after(&d, &first);
    let p2 = build(&d2);
    assert!(init(&p2, &d2.listing, false, d2.existing_hook.as_deref()).is_empty(), "a second init must write nothing");
}

#[test]
fn honours_core_hooks_path() {
    // `git rev-parse --git-path hooks` reports `.husky` when core.hooksPath is set
    let dir = revd::git::hooks_dir(ROOT, ".husky\n");
    let got = hook_path(ROOT, Some(&dir));
    assert!(got.ends_with(".husky/pre-commit"), "got {}", got);
    assert_eq!(hook_path(ROOT, None), "/work/proj/.git/hooks/pre-commit");
}

#[test]
fn defers_to_the_pre_commit_framework() {
    let d = survey(&["go.mod", ".pre-commit-config.yaml"], true, None);
    let p = build(&d);
    assert!(matches!(p.hook, HookPlan::Managed(Manager::PreCommit, _)));
    assert!(apply(&p, &d.listing, false, None).iter().all(|w| !w.path.ends_with("pre-commit")));
}

#[test]
fn defers_to_lefthook_before_it_has_installed_its_hook() {
    let d = survey(&["go.mod", "lefthook.yml"], true, None);
    let p = build(&d);
    assert!(matches!(p.hook, HookPlan::Managed(Manager::Lefthook, _)));
}

#[test]
fn recognises_a_manager_from_its_shim_alone() {
    let shim = "#!/usr/bin/env bash\n# File generated by pre-commit: https://pre-commit.com\n";
    let d = survey(&["go.mod"], true, Some(shim));
    let p = build(&d);
    assert!(matches!(p.hook, HookPlan::Managed(Manager::PreCommit, _)));
}

#[test]
fn generated_hook_only_blocks_on_secrets() {
    let d = survey(&["go.mod"], true, None);
    let p = build(&d);
    let script = render(&p);
    assert!(script.contains("gitleaks"));
    assert!(script.contains("fail=1"), "secrets must be able to fail the commit");
    assert!(script.contains("advisory"), "linters must be advisory");
    assert!(!script.contains("__REVD_ADVISORY__"), "placeholder must be substituted");
}

#[test]
fn init_does_nothing_outside_a_project() {
    let d = survey(&["README.md"], true, None);
    let p = build(&d);
    assert!(p.detected.is_empty());
    assert!(init(&p, &d.listing, false, None).is_empty());
    // apply alone would still write the language-agnostic configs
    assert!(!apply(&p, &d.listing, false, None).is_empty());
}

#[test]
fn no_hook_outside_git() {
    let d = survey(&["go.mod"], false, None);
    let p = build(&d);
    assert!(matches!(p.hook, HookPlan::NotGit));
    let hook = hook_path(ROOT, None);
    assert!(init(&p, &d.listing, false, None).iter().all(|w| w.path != hook));
}

#[test]
fn force_replaces_a_foreign_hook_and_existing_configs() {
    let mine = "#!/bin/sh\necho mine\n";
    let d = survey(&["go.mod", ".golangci.yml"], true, Some(mine));
    let p = build(&d);
    let written = init(&p, &d.listing, true, Some(mine));
    let paths: Vec<&str> = written.iter().map(|w| w.path.as_str()).collect();
    assert!(paths.contains(&"/work/proj/.git/hooks/pre-commit"));
    assert!(paths.contains(&"/work/proj/.golangci.yml"), "--force overwrites an existing config");
    assert!(paths.contains(&"/work/proj/.gitleaks.toml"));
    let gcl = written.iter().find(|w| w.path == "/work/proj/.golangci.yml").unwrap();
    assert_eq!(gcl.contents, revd::tools::registry::GOLANGCI_YML);
    // without --force the existing config is left alone
    let plain = init(&p, &d.listing, false, Some(mine));
    assert!(plain.iter().all(|w| w.path != "/work/proj/.golangci.yml"));
}

#[test]
fn a_revd_hook_is_refreshed_only_when_it_differs() {
    let d = survey(&["go.mod"], true, None);
    let p = build(&d);
    let current = render(&p);
    let d2 = survey(&["go.mod"], true, Some(&current));
    let p2 = build(&d2);
    assert!(matches!(p2.hook, HookPlan::Refresh));
    assert!(revd::hooks::apply(&p2, false, Some(&current)).is_none());
    let stale = current.replace("fail=0", "fail=0 ");
    let d3 = survey(&["go.mod"], true, Some(&stale));
    let p3 = build(&d3);
    assert!(matches!(p3.hook, HookPlan::Refresh));
    let w = revd::hooks::apply(&p3, false, Some(&stale)).unwrap();
    assert_eq!(w.contents, current);
}

#[test]
fn installed_tools_are_reported_with_their_version() {
    let mut d = survey(&["go.mod"], true, None);
    d.probes.push(Probe { id: "gitleaks".to_string(), version: Some("8.18.0".to_string()) });
    d.probes.push(Probe { id: "gofmt".to_string(), version: None });
    let p = build(&d);
    let gl = p.tools.iter().find(|t| t.spec.id == "gitleaks").unwrap();
    assert_eq!(gl.installed.as_deref(), Some("8.18.0"));
    let missing: Vec<&str> = p.missing_tools().iter().map(|t| t.spec.id).collect();
    assert!(missing.contains(&"gofmt"));
    assert!(!missing.contains(&"gitleaks"));
    let writing: Vec<&str> = p.files_to_write().iter().map(|t| t.spec.id).collect();
    assert_eq!(writing, vec!["gitleaks", "golangci-lint"]);
}

#[test]
fn the_root_given_wins_then_git_then_the_current_directory() {
    assert_eq!(resolve_root(Some("/x".into()), Some("/repo".into()), "/cwd".into()), "/x");
    assert_eq!(resolve_root(None, Some("/repo".into()), "/cwd".into()), "/repo");
    assert_eq!(resolve_root(None, None, "/cwd".into()), "/cwd");
}
