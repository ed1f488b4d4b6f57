use revd::lang::{Entry, Lang, Listing};
use revd::tools::registry;
use revd::tools::{for_languages, tool_less, Install, Role, ToolSpec};

fn root_listing(names: &[&str]) -> Listing {
    Listing {
        entries: names
            .iter()
            .map(|n| Entry { dir: Vec::new(), name: n.to_string(), is_dir: false })
            .collect(),
    }
}

fn find(id: &str) -> ToolSpec {
    registry::all().into_iter().find(|t| t.id == id).unwrap()
}

#[test]
fn registry_ids_are_unique() {
    let mut ids: Vec<&str> = registry::all().iter().map(|t| t.id).collect();
    let before = ids.len();
    ids.sort_unstable();
    ids.dedup();
    assert_eq!(before, ids.len(), "duplicate tool id in registry");
}

#[test]
fn every_language_has_a_linter_and_a_secrets_scanner() {
    for lang in Lang::ALL.iter() {
        let tools = for_languages(&[*lang]);
        assert!(tools.iter().any(|t| t.role == Role::Lint), "{} has no lint tool", lang.as_str());
        assert!(tools.iter().any(|t| t.role == Role::Secrets), "{} has no secrets tool", lang.as_str());
    }
}

#[test]
fn template_paths_are_relative() {
    for t in registry::all() {
        if let Some(tpl) = t.template {
            assert!(!tpl.path.starts_with('/'), "{}: absolute template path", t.id);
            assert!(!tpl.contents.is_empty(), "{}: empty template", t.id);
        }
    }
}

#[test]
fn language_agnostic_tools_apply_everywhere() {
    let gitleaks = find("gitleaks");
    assert!(gitleaks.applies_to(&[Lang::Java]));
    assert!(gitleaks.applies_to(&[Lang::Rust]));
}

#[test]
fn registry_holds_seventeen_tools_and_selection_sorts_them() {
    assert_eq!(registry::all().len(), 17);
    let every = for_languages(&[Lang::Go, Lang::TypeScript, Lang::Python, Lang::Rust, Lang::Java]);
    assert_eq!(every.len(), 17);
    for w in every.windows(2) {
        assert!(tool_less(&w[0], &w[1]), "{} before {}", w[0].id, w[1].id);
    }
}

#[test]
fn templates_are_among_config_files() {
    for t in registry::all() {
        if let Some(tpl) = t.template {
            assert!(t.config_files.contains(&tpl.path), "{}", t.id);
        }
    }
}

#[test]
fn tools_for_go_are_sorted_and_exclude_other_languages() {
    let ids: Vec<&str> = for_languages(&[Lang::Go]).iter().map(|t| t.id).collect();
    assert_eq!(ids, vec!["gitleaks", "opengrep", "golangci-lint", "go-vet", "osv-scanner", "gofmt"]);
}

#[test]
fn tools_for_no_language_are_the_agnostic_ones() {
    let ids: Vec<&str> = for_languages(&[]).iter().map(|t| t.id).collect();
    assert_eq!(ids, vec!["gitleaks", "opengrep", "osv-scanner"]);
}

#[test]
fn install_commands_and_groups() {
    assert_eq!(Install::Brew("gitleaks").command(), "brew install gitleaks");
    assert_eq!(Install::Npm("oxlint").command(), "npm i -g oxlint");
    assert_eq!(Install::Builtin.command(), "(ships with the toolchain)");
    assert_eq!(Install::Manual("see the docs").command(), "see the docs");
    assert_eq!(Install::Pipx("ruff").group(), Some(("pipx install", "ruff")));
    assert_eq!(Install::Builtin.group(), None);
    assert!(Install::Builtin.is_builtin());
    assert!(!Install::Go("x").is_builtin());
}

#[test]
fn role_and_output_names() {
    assert_eq!(Role::Secrets.as_str(), "secrets");
    assert_eq!(Role::TypeCheck.as_str(), "typecheck");
    assert_eq!(revd::tools::Output::Sarif.as_str(), "sarif");
}

#[test]
fn existing_config_finds_the_first_present_file() {
    let gcl = find("golangci-lint");
    assert_eq!(gcl.existing_config(&root_listing(&["go.mod"])), None);
    assert_eq!(
        gcl.existing_config(&root_listing(&[".golangci.toml", ".golangci.yaml"])),
        Some(".golangci.yaml".to_string())
    );
    // only root entries count
    let nested = Listing {
        entries: vec![Entry { dir: vec!["sub".to_string()], name: ".golangci.yml".to_string(), is_dir: false }],
    };
    assert_eq!(gcl.existing_config(&nested), None);
}

#[test]
fn version_comes_from_the_first_line() {
    assert_eq!(ToolSpec::version_from_output(true, "  gitleaks 8.1\nmore\n", ""), Some("gitleaks 8.1".to_string()));
    assert_eq!(ToolSpec::version_from_output(true, "   \n", "tsc 5.0\n"), Some("tsc 5.0".to_string()));
    assert_eq!(ToolSpec::version_from_output(false, "", "not found"), None);
    assert_eq!(ToolSpec::version_from_output(true, "", ""), None);
}

#[test]
fn clippy_is_probed_through_its_cargo_subcommand() {
    let clippy = find("clippy");
    assert_eq!(clippy.probe_binary(), "cargo-clippy");
    assert_eq!(find("ruff").probe_binary(), "ruff");
}

#[test]
fn tools_depend_only_on_the_set_of_languages() {
    let ids = |ls: &[Lang]| -> Vec<&str> { for_languages(ls).iter().map(|t| t.id).collect() };
    assert_eq!(ids(&[Lang::Rust, Lang::Go]), ids(&[Lang::Go, Lang::Rust]));
    assert_eq!(ids(&[Lang::Go, Lang::Go]), ids(&[Lang::Go]));
}

#[test]
fn the_view_carries_why_and_note() {
    let gl = find("gitleaks");
    assert_eq!(gl.why, "catches credentials before they reach history");
    assert_eq!(gl.note, "MIT. Last release 2026-03-21 — maintenance has slowed.");
}
