use revd::lang::{Entry, Listing};
use revd::plan::{build, Plan, Probe, Survey};
use revd::report::{
    coverage, header, hook, hook_footnote, install_hints, notes, project_name, registry, rel, strip_root, summary,
    table, wrote,
};
use revd::tools::registry as reg;

fn survey(root: &str, files: &[&str], probes: &[(&str, &str)]) -> Survey {
    let mut entries = vec![Entry { dir: Vec::new(), name: ".git".to_string(), is_dir: true }];
    for f in files {
        entries.push(Entry { dir: Vec::new(), name: f.to_string(), is_dir: false });
    }
    Survey {
        root: root.to_string(),
        listing: Listing { entries },
        probes: probes.iter().map(|(id, v)| Probe { id: id.to_string(), version: Some(v.to_string()) }).collect(),
        hooks_dir: None,
        existing_hook: None,
    }
}

fn go_plan() -> Plan {
    build(&survey("/work/proj", &["go.mod"], &[]))
}

fn note(id: &str) -> &'static str {
    reg::all().into_iter().find(|t| t.id == id).unwrap().note
}

#[test]
fn header_names_the_project_and_its_languages() {
    assert_eq!(header(&go_plan(), false), "\nrevd proj  go\n");
    let none = build(&survey("/work/empty", &[], &[]));
    assert_eq!(header(&none, false), "\nrevd empty  no languages detected\n");
    assert_eq!(header(&go_plan(), true), "\n\x1b[1mrevd\x1b[0m \x1b[2mproj\x1b[0m  \x1b[36mgo\x1b[0m\n");
}

#[test]
fn project_names() {
    assert_eq!(project_name("/work/proj"), "proj");
    assert_eq!(project_name("/work/proj/"), "proj");
    assert_eq!(project_name("/"), "/");
    assert_eq!(project_name("/work/proj/."), "proj");
    assert_eq!(project_name("/work/.."), "/work/..");
}

#[test]
fn table_lists_tools_by_role() {
    let want = [
        format!("  {:<11}○ {:<18} {}", "secrets", "gitleaks", ".gitleaks.toml"),
        format!("  {:<11}○ {}", "sast", "opengrep"),
        format!("  {:<11}○ {:<18} {}", "lint", "golangci-lint", ".golangci.yml"),
        format!("  {:<11}○ {}", "typecheck", "go-vet"),
        format!("  {:<11}○ {}", "deps", "osv-scanner"),
        format!("  {:<11}○ {}", "format", "gofmt"),
    ];
    assert_eq!(table(&go_plan(), false), format!("\n{}\n", want.join("\n")));
}

#[test]
fn table_shows_installed_tools_and_existing_configs() {
    let p = build(&survey("/work/proj", &["go.mod", ".golangci.yaml"], &[("golangci-lint", "2.1")]));
    let t = table(&p, false);
    assert!(t.contains(&format!("  {:<11}● {:<18} {}\n", "lint", "golangci-lint", ".golangci.yaml")));
}

#[test]
fn hook_line() {
    assert_eq!(hook(&go_plan(), false), format!("  {:<11}→ pre-commit hook\n", "hook"));
    let p = build(&survey("/work/proj", &["go.mod", "lefthook.yml"], &[]));
    assert_eq!(hook(&p, false), format!("  {:<11}· managed by lefthook — revd defers to it\n", "hook"));
}

#[test]
fn summary_counts() {
    assert_eq!(summary(&go_plan(), false, false), "\n  ● 0 installed   ○ 6 missing   2 configs to write\n");
    assert_eq!(summary(&go_plan(), true, false), "\n  ● 0 installed   ○ 6 missing   2 configs written\n");
    let p = build(&survey("/work/proj", &["go.mod", ".gitleaks.toml", ".golangci.yml"], &[("gofmt", "go1.22")]));
    assert_eq!(summary(&p, false, false), "\n  ● 1 installed   ○ 5 missing\n");
    assert_eq!(summary(&p, true, false), "\n  ● 1 installed   ○ 5 missing   0 configs written\n");
}

#[test]
fn install_hints_collapse_per_package_manager() {
    let want = format!(
        "\n  install what you need\n    brew install gitleaks osv-scanner\n    go install github.com/golangci/golangci-lint/v2/cmd/golangci-lint@latest\n    {:<18} {}\n    not on PATH: go-vet, gofmt — install the language toolchain\n",
        "opengrep", "see github.com/opengrep/opengrep releases (signed static binaries)"
    );
    assert_eq!(install_hints(&go_plan(), false), want);
}

#[test]
fn install_hints_list_each_package_once() {
    let p = build(&survey("/work/py", &["pyproject.toml"], &[("opengrep", "1.0")]));
    assert_eq!(
        install_hints(&p, false),
        "\n  install what you need\n    brew install gitleaks osv-scanner ruff\n    pipx install mypy\n"
    );
}

#[test]
fn no_install_hints_when_nothing_is_missing() {
    let all: Vec<(&str, &str)> = reg::all().iter().map(|t| (t.id, "1")).collect();
    let p = build(&survey("/work/proj", &["go.mod"], &all));
    assert_eq!(install_hints(&p, false), "");
}

#[test]
fn coverage_reports_gaps_per_role() {
    let p = build(&survey("/work/proj", &["go.mod"], &[("gitleaks", "8")]));
    let c = coverage(&p, false);
    assert!(c.starts_with("\n  coverage\n"));
    assert!(c.contains(&format!("    {:<11}1/1  ok\n", "secrets")));
    assert!(c.contains(&format!("    {:<11}0/1  gap\n", "lint")));
    assert_eq!(c.lines().count(), 8);
}

#[test]
fn notes_cover_tools_in_use() {
    let n = notes(&go_plan(), false);
    assert!(n.starts_with("\n  notes\n"));
    assert!(n.contains(&format!("    {:<18} {}\n", "gitleaks", note("gitleaks"))));
    // opengrep is neither installed nor configured
    assert!(!n.contains("opengrep"));
}

#[test]
fn wrote_shows_paths_relative_to_the_root() {
    let p = go_plan();
    assert_eq!(wrote(&p, &Vec::new(), false), "");
    let ws = vec!["/work/proj/.gitleaks.toml".to_string(), "/elsewhere/x".to_string()];
    assert_eq!(wrote(&p, &ws, false), "\n  + .gitleaks.toml\n  + /elsewhere/x\n");
    assert_eq!(strip_root("/work/proj", "/work/projx/a"), "/work/projx/a");
}

#[test]
fn footnotes_for_hooks_left_alone() {
    let p = build(&survey("/work/proj", &["go.mod", "lefthook.yml"], &[]));
    assert_eq!(
        hook_footnote(&p, ".git/hooks/pre-commit", false),
        "\n  lefthook manages .git/hooks/pre-commit\n    to add these checks: add them under `pre-commit.commands` in lefthook.yml\n"
    );
    assert_eq!(hook_footnote(&go_plan(), ".git/hooks/pre-commit", false), "");
    assert_eq!(rel("/private/var/p", "/private/var/p/.git/hooks/pre-commit", "/var/p/.git/hooks/pre-commit"), ".git/hooks/pre-commit");
    assert_eq!(rel("/a", "/b/c", "/b/c"), "/b/c");
}

#[test]
fn registry_lists_every_tool() {
    let r = registry(false);
    let first = reg::all()[0];
    assert!(r.starts_with(&format!("  {:<11}{:<18} {:<12} {:<6} {}\n", "secrets", "gitleaks", "all", "sarif", first.why)));
    let gcl = reg::all().into_iter().find(|t| t.id == "golangci-lint").unwrap();
    assert!(r.contains(&format!("  {:<11}{:<18} {:<12} {:<6} {}\n", "lint", "golangci-lint", "go", gcl.output.as_str(), gcl.why)));
    assert_eq!(r.lines().count(), 17 + 2);
    assert!(r.ends_with("\n  add a tool: define a ToolSpec in src/tools/registry.rs and list it in all()\n"));
}

#[test]
fn paths_are_shown_as_path_strip_prefix_gives_them() {
    let cases = [
        ("/work/proj/", "/work/proj/.gitleaks.toml"),
        ("/work/proj", "/work/proj//a/./b/"),
        ("/work/proj", "/work/proj"),
        ("/work/proj", "/work/projx/a"),
        ("/work/./proj", "/work/proj/a"),
        ("proj", "proj/a/b//c/."),
        ("./proj", "proj/a"),
        ("./proj", "./proj/a"),
        ("/", "/a/b"),
        ("", "a/b/"),
        ("/a", "b/c"),
        ("a/..", "a/../b"),
    ];
    for (root, p) in cases {
        let want = match std::path::Path::new(p).strip_prefix(root) {
            Ok(r) => r.display().to_string(),
            Err(_) => p.to_string(),
        };
        assert_eq!(strip_root(root, p), want, "{} in {}", p, root);
        assert_eq!(rel(root, p, "orig"), if want == p && std::path::Path::new(p).strip_prefix(root).is_err() { "orig".to_string() } else { want.clone() });
    }
}
