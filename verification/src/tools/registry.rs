//! The tool registry.
//!
//! To add a tool: write a `ToolSpec` below and list it in [`all`], and its
//! view in [`spec_registry`]. That is the whole extension process — the rest
//! of revd is generic over it.
use super::{applies, Install, InstallView, Output, Role, Template, ToolSpec, ToolView};
use crate::lang::{spec_markers, Lang};
use crate::text::seq_starts_with;
use vstd::prelude::*;

verus! {

/// `.gitleaks.toml` as revd writes it.
pub const GITLEAKS_TOML: &'static str = "# gitleaks configuration. Yours to edit: revd leaves it alone unless run with --force.\ntitle = \"gitleaks config\"\n\n[extend]\n# keep gitleaks' built-in rules and add to them below\nuseDefault = true\n\n[allowlist]\ndescription = \"paths that never hold real credentials\"\npaths = [\n  '''(^|/)testdata/''',\n  '''(^|/)vendor/''',\n  '''\\.lock$''',\n]\n";

/// `.golangci.yml` as revd writes it.
pub const GOLANGCI_YML: &'static str = "# golangci-lint configuration. Yours to edit: revd leaves it alone unless run with --force.\nversion: \"2\"\n\nlinters:\n  default: standard\n  enable:\n    - bodyclose\n    - contextcheck\n    - errorlint\n    - gosec\n    - noctx\n    - nilerr\n\nissues:\n  max-issues-per-linter: 0\n  max-same-issues: 0\n";

/// `.oxlintrc.json` as revd writes it.
pub const OXLINTRC_JSON: &'static str = "{\n  \"categories\": {\n    \"correctness\": \"error\",\n    \"suspicious\": \"warn\"\n  },\n  \"rules\": {\n    \"no-console\": \"warn\",\n    \"no-debugger\": \"error\",\n    \"typescript/no-explicit-any\": \"warn\",\n    \"typescript/no-floating-promises\": \"error\"\n  },\n  \"ignorePatterns\": [\"dist/**\", \"build/**\", \"node_modules/**\"]\n}\n";

/// `ruff.toml` as revd writes it.
pub const RUFF_TOML: &'static str = "# ruff configuration. Yours to edit: revd leaves it alone unless run with --force.\nline-length = 100\n\n[lint]\n# pyflakes, pycodestyle errors, bugbear, bandit, isort, pyupgrade\nselect = [\"F\", \"E\", \"B\", \"S\", \"I\", \"UP\"]\nignore = [\"E501\"]\n\n[lint.per-file-ignores]\n\"tests/**\" = [\"S101\"]\n";

/// `clippy.toml` as revd writes it.
pub const CLIPPY_TOML: &'static str = "# clippy configuration. Yours to edit: revd leaves it alone unless run with --force.\n# Lint levels live in Cargo.toml ([lints.clippy]); this file tunes thresholds.\ncognitive-complexity-threshold = 30\ntoo-many-arguments-threshold = 8\n";

/// Every tool revd knows about, as values, in registry order.
pub open spec fn spec_registry() -> Seq<ToolView> {
    seq![
        ToolView {
            id: "gitleaks"@,
            role: Role::Secrets,
            langs: seq![],
            binary: "gitleaks"@,
            probe: None,
            version_args: seq!["version"@],
            install: InstallView::Brew("gitleaks"@),
            config_files: seq![".gitleaks.toml"@, "gitleaks.toml"@],
            template_path: Some(".gitleaks.toml"@),
            template_contents: Some(GITLEAKS_TOML@),
            scan_args: seq!["git"@, "--staged"@, "--no-banner"@, "--redact"@],
            output: Output::Sarif,
            why: "catches credentials before they reach history"@,
            note: "MIT. Last release 2026-03-21 — maintenance has slowed."@,
        },
        ToolView {
            id: "opengrep"@,
            role: Role::Sast,
            langs: seq![],
            binary: "opengrep"@,
            probe: None,
            version_args: seq!["--version"@],
            install: InstallView::Manual("see github.com/opengrep/opengrep releases (signed static binaries)"@),
            config_files: seq![".opengrep.yml"@, "opengrep.yml"@],
            template_path: None,
            template_contents: None,
            scan_args: seq!["scan"@, "--sarif"@],
            output: Output::Sarif,
            why: "cross-language structural security rules"@,
            note: "LGPL-2.1 fork of Semgrep. Preferred over Semgrep: no telemetry, no account, static binaries. Bring your own rules — Semgrep's registry rules are no longer open source."@,
        },
        ToolView {
            id: "golangci-lint"@,
            role: Role::Lint,
            langs: seq![Lang::Go],
            binary: "golangci-lint"@,
            probe: None,
            version_args: seq!["--version"@],
            install: InstallView::Go("github.com/golangci/golangci-lint/v2/cmd/golangci-lint@latest"@),
            config_files: seq![".golangci.yml"@, ".golangci.yaml"@, ".golangci.toml"@, ".golangci.json"@],
            template_path: Some(".golangci.yml"@),
            template_contents: Some(GOLANGCI_YML@),
            scan_args: seq!["run"@, "--new-from-rev=HEAD~"@],
            output: Output::Sarif,
            why: "bundles errcheck, staticcheck, go vet and ~100 more behind one binary"@,
            note: "GPL-3.0 — safe to shell out to, do not vendor or redistribute."@,
        },
        ToolView {
            id: "oxlint"@,
            role: Role::Lint,
            langs: seq![Lang::TypeScript],
            binary: "oxlint"@,
            probe: None,
            version_args: seq!["--version"@],
            install: InstallView::Npm("oxlint"@),
            config_files: seq![".oxlintrc.json"@],
            template_path: Some(".oxlintrc.json"@),
            template_contents: Some(OXLINTRC_JSON@),
            scan_args: seq!["--format=sarif"@],
            output: Output::Sarif,
            why: "Rust-based, ~50x faster than ESLint, no node_modules needed to run"@,
            note: "MIT. Type-aware mode needs TypeScript 7+."@,
        },
        ToolView {
            id: "ruff"@,
            role: Role::Lint,
            langs: seq![Lang::Python],
            binary: "ruff"@,
            probe: None,
            version_args: seq!["--version"@],
            install: InstallView::Brew("ruff"@),
            config_files: seq!["ruff.toml"@, ".ruff.toml"@],
            template_path: Some("ruff.toml"@),
            template_contents: Some(RUFF_TOML@),
            scan_args: seq!["check"@, "--output-format=sarif"@],
            output: Output::Sarif,
            why: "replaces flake8, isort, bandit and pyupgrade in one fast binary"@,
            note: "MIT. Also covers formatting via `ruff format`."@,
        },
        ToolView {
            id: "clippy"@,
            role: Role::Lint,
            langs: seq![Lang::Rust],
            binary: "cargo"@,
            probe: Some("cargo-clippy"@),
            version_args: seq!["clippy"@, "--version"@],
            install: InstallView::Manual("rustup component add clippy"@),
            config_files: seq!["clippy.toml"@, ".clippy.toml"@],
            template_path: Some("clippy.toml"@),
            template_contents: Some(CLIPPY_TOML@),
            scan_args: seq!["clippy"@, "--all-targets"@, "--message-format=json"@],
            output: Output::Json,
            why: "the Rust linter; catches correctness and idiom problems rustc allows"@,
            note: "Ships with rustup. No SARIF — emits cargo JSON diagnostics."@,
        },
        ToolView {
            id: "pmd"@,
            role: Role::Lint,
            langs: seq![Lang::Java],
            binary: "pmd"@,
            probe: None,
            version_args: seq!["--version"@],
            install: InstallView::Brew("pmd"@),
            config_files: seq!["pmd-ruleset.xml"@, "ruleset.xml"@],
            template_path: None,
            template_contents: None,
            scan_args: seq!["check"@, "-f"@, "sarif"@],
            output: Output::Sarif,
            why: "Java static analysis: unused code, complexity, error-prone patterns"@,
            note: "BSD-style. SpotBugs is the bytecode-level complement."@,
        },
        ToolView {
            id: "go-vet"@,
            role: Role::TypeCheck,
            langs: seq![Lang::Go],
            binary: "go"@,
            probe: None,
            version_args: seq!["version"@],
            install: InstallView::Builtin,
            config_files: seq![],
            template_path: None,
            template_contents: None,
            scan_args: seq!["vet"@, "-json"@, "./..."@],
            output: Output::Json,
            why: "type-aware checks the compiler does not run"@,
            note: "Included in golangci-lint; listed separately as a zero-install fallback."@,
        },
        ToolView {
            id: "tsc"@,
            role: Role::TypeCheck,
            langs: seq![Lang::TypeScript],
            binary: "tsc"@,
            probe: None,
            version_args: seq!["--version"@],
            install: InstallView::Npm("typescript"@),
            config_files: seq!["tsconfig.json"@],
            template_path: None,
            template_contents: None,
            scan_args: seq!["--noEmit"@, "--pretty"@, "false"@],
            output: Output::Text,
            why: "the only source of real type errors"@,
            note: "Must run whole-project: passing changed files gives a false green. Text output only — needs a bespoke parser."@,
        },
        ToolView {
            id: "mypy"@,
            role: Role::TypeCheck,
            langs: seq![Lang::Python],
            binary: "mypy"@,
            probe: None,
            version_args: seq!["--version"@],
            install: InstallView::Pipx("mypy"@),
            config_files: seq!["mypy.ini"@, ".mypy.ini"@],
            template_path: None,
            template_contents: None,
            scan_args: seq!["--no-error-summary"@],
            output: Output::Text,
            why: "static types for Python, where annotations exist"@,
            note: "MIT. Configure in pyproject.toml if you already have one."@,
        },
        ToolView {
            id: "cargo-check"@,
            role: Role::TypeCheck,
            langs: seq![Lang::Rust],
            binary: "cargo"@,
            probe: None,
            version_args: seq!["--version"@],
            install: InstallView::Builtin,
            config_files: seq![],
            template_path: None,
            template_contents: None,
            scan_args: seq!["check"@, "--all-targets"@, "--message-format=json"@],
            output: Output::Json,
            why: "compiler errors without producing a binary"@,
            note: "Ships with Rust."@,
        },
        ToolView {
            id: "osv-scanner"@,
            role: Role::Deps,
            langs: seq![],
            binary: "osv-scanner"@,
            probe: None,
            version_args: seq!["--version"@],
            install: InstallView::Brew("osv-scanner"@),
            config_files: seq!["osv-scanner.toml"@],
            template_path: None,
            template_contents: None,
            scan_args: seq!["--format"@, "sarif"@, "."@],
            output: Output::Sarif,
            why: "known vulnerabilities in your dependency tree, every ecosystem"@,
            note: "Apache-2.0. Genuine offline mode via --offline with a local database."@,
        },
        ToolView {
            id: "gofmt"@,
            role: Role::Format,
            langs: seq![Lang::Go],
            binary: "gofmt"@,
            probe: None,
            version_args: seq!["-h"@],
            install: InstallView::Builtin,
            config_files: seq![],
            template_path: None,
            template_contents: None,
            scan_args: seq!["-l"@, "."@],
            output: Output::Text,
            why: "canonical Go formatting; no configuration, no debate"@,
            note: "Advisory only — formatting never blocks a commit."@,
        },
        ToolView {
            id: "rustfmt"@,
            role: Role::Format,
            langs: seq![Lang::Rust],
            binary: "rustfmt"@,
            probe: None,
            version_args: seq!["--version"@],
            install: InstallView::Manual("rustup component add rustfmt"@),
            config_files: seq!["rustfmt.toml"@, ".rustfmt.toml"@],
            template_path: None,
            template_contents: None,
            scan_args: seq!["--check"@],
            output: Output::Text,
            why: "canonical Rust formatting"@,
            note: "Advisory only."@,
        },
        ToolView {
            id: "ruff-format"@,
            role: Role::Format,
            langs: seq![Lang::Python],
            binary: "ruff"@,
            probe: None,
            version_args: seq!["--version"@],
            install: InstallView::Brew("ruff"@),
            config_files: seq!["ruff.toml"@, ".ruff.toml"@],
            template_path: None,
            template_contents: None,
            scan_args: seq!["format"@, "--check"@],
            output: Output::Text,
            why: "Black-compatible formatting, same binary as the linter"@,
            note: "Advisory only."@,
        },
        ToolView {
            id: "prettier"@,
            role: Role::Format,
            langs: seq![Lang::TypeScript],
            binary: "prettier"@,
            probe: None,
            version_args: seq!["--version"@],
            install: InstallView::Npm("prettier"@),
            config_files: seq![".prettierrc"@, ".prettierrc.json"@, "prettier.config.js"@],
            template_path: None,
            template_contents: None,
            scan_args: seq!["--check"@, "."@],
            output: Output::Text,
            why: "formatting for the JS/TS ecosystem"@,
            note: "Advisory only. Biome is a faster single-binary alternative."@,
        },
        ToolView {
            id: "spotless"@,
            role: Role::Format,
            langs: seq![Lang::Java],
            binary: "mvn"@,
            probe: None,
            version_args: seq!["--version"@],
            install: InstallView::Manual("add the spotless plugin to pom.xml or build.gradle"@),
            config_files: seq![],
            template_path: None,
            template_contents: None,
            scan_args: seq!["spotless:check"@],
            output: Output::Text,
            why: "formatting via your existing build tool"@,
            note: "Advisory only. Configured in the build file, not standalone."@,
        }
    ]
}

/// Every tool revd knows about. Add new specs here.
pub fn all() -> (r: Vec<ToolSpec>)
    ensures
        r@.map_values(|t: ToolSpec| t@) == spec_registry(),
{
    let r = vec![
        ToolSpec {
            id: "gitleaks",
            role: Role::Secrets,
            langs: &[],
            binary: "gitleaks",
            probe: None,
            version_args: &["version"],
            install: Install::Brew("gitleaks"),
            config_files: &[".gitleaks.toml", "gitleaks.toml"],
            template: Some(Template { path: ".gitleaks.toml", contents: GITLEAKS_TOML }),
            scan_args: &["git", "--staged", "--no-banner", "--redact"],
            output: Output::Sarif,
            why: "catches credentials before they reach history",
            note: "MIT. Last release 2026-03-21 — maintenance has slowed.",
        },
        ToolSpec {
            id: "opengrep",
            role: Role::Sast,
            langs: &[],
            binary: "opengrep",
            probe: None,
            version_args: &["--version"],
            install: Install::Manual("see github.com/opengrep/opengrep releases (signed static binaries)"),
            config_files: &[".opengrep.yml", "opengrep.yml"],
            template: None,
            scan_args: &["scan", "--sarif"],
            output: Output::Sarif,
            why: "cross-language structural security rules",
            note: "LGPL-2.1 fork of Semgrep. Preferred over Semgrep: no telemetry, no account, static binaries. Bring your own rules — Semgrep's registry rules are no longer open source.",
        },
        ToolSpec {
            id: "golangci-lint",
            role: Role::Lint,
            langs: &[Lang::Go],
            binary: "golangci-lint",
            probe: None,
            version_args: &["--version"],
            install: Install::Go("github.com/golangci/golangci-lint/v2/cmd/golangci-lint@latest"),
            config_files: &[".golangci.yml", ".golangci.yaml", ".golangci.toml", ".golangci.json"],
            template: Some(Template { path: ".golangci.yml", contents: GOLANGCI_YML }),
            scan_args: &["run", "--new-from-rev=HEAD~"],
            output: Output::Sarif,
            why: "bundles errcheck, staticcheck, go vet and ~100 more behind one binary",
            note: "GPL-3.0 — safe to shell out to, do not vendor or redistribute.",
        },
        ToolSpec {
            id: "oxlint",
            role: Role::Lint,
            langs: &[Lang::TypeScript],
            binary: "oxlint",
            probe: None,
            version_args: &["--version"],
            install: Install::Npm("oxlint"),
            config_files: &[".oxlintrc.json"],
            template: Some(Template { path: ".oxlintrc.json", contents: OXLINTRC_JSON }),
            scan_args: &["--format=sarif"],
            output: Output::Sarif,
            why: "Rust-based, ~50x faster than ESLint, no node_modules needed to run",
            note: "MIT. Type-aware mode needs TypeScript 7+.",
        },
        ToolSpec {
            id: "ruff",
            role: Role::Lint,
            langs: &[Lang::Python],
            binary: "ruff",
            probe: None,
            version_args: &["--version"],
            install: Install::Brew("ruff"),
            config_files: &["ruff.toml", ".ruff.toml"],
            template: Some(Template { path: "ruff.toml", contents: RUFF_TOML }),
            scan_args: &["check", "--output-format=sarif"],
            output: Output::Sarif,
            why: "replaces flake8, isort, bandit and pyupgrade in one fast binary",
            note: "MIT. Also covers formatting via `ruff format`.",
        },
        ToolSpec {
            id: "clippy",
            role: Role::Lint,
            langs: &[Lang::Rust],
            binary: "cargo",
            probe: Some("cargo-clippy"),
            version_args: &["clippy", "--version"],
            install: Install::Manual("rustup component add clippy"),
            config_files: &["clippy.toml", ".clippy.toml"],
            template: Some(Template { path: "clippy.toml", contents: CLIPPY_TOML }),
            scan_args: &["clippy", "--all-targets", "--message-format=json"],
            output: Output::Json,
            why: "the Rust linter; catches correctness and idiom problems rustc allows",
            note: "Ships with rustup. No SARIF — emits cargo JSON diagnostics.",
        },
        ToolSpec {
            id: "pmd",
            role: Role::Lint,
            langs: &[Lang::Java],
            binary: "pmd",
            probe: None,
            version_args: &["--version"],
            install: Install::Brew("pmd"),
            config_files: &["pmd-ruleset.xml", "ruleset.xml"],
            template: None,
            scan_args: &["check", "-f", "sarif"],
            output: Output::Sarif,
            why: "Java static analysis: unused code, complexity, error-prone patterns",
            note: "BSD-style. SpotBugs is the bytecode-level complement.",
        },
        ToolSpec {
            id: "go-vet",
            role: Role::TypeCheck,
            langs: &[Lang::Go],
            binary: "go",
            probe: None,
            version_args: &["version"],
            install: Install::Builtin,
            config_files: &[],
            template: None,
            scan_args: &["vet", "-json", "./..."],
            output: Output::Json,
            why: "type-aware checks the compiler does not run",
            note: "Included in golangci-lint; listed separately as a zero-install fallback.",
        },
        ToolSpec {
            id: "tsc",
            role: Role::TypeCheck,
            langs: &[Lang::TypeScript],
            binary: "tsc",
            probe: None,
            version_args: &["--version"],
            install: Install::Npm("typescript"),
            config_files: &["tsconfig.json"],
            template: None,
            scan_args: &["--noEmit", "--pretty", "false"],
            output: Output::Text,
            why: "the only source of real type errors",
            note: "Must run whole-project: passing changed files gives a false green. Text output only — needs a bespoke parser.",
        },
        ToolSpec {
            id: "mypy",
            role: Role::TypeCheck,
            langs: &[Lang::Python],
            binary: "mypy",
            probe: None,
            version_args: &["--version"],
            install: Install::Pipx("mypy"),
            config_files: &["mypy.ini", ".mypy.ini"],
            template: None,
            scan_args: &["--no-error-summary"],
            output: Output::Text,
            why: "static types for Python, where annotations exist",
            note: "MIT. Configure in pyproject.toml if you already have one.",
        },
        ToolSpec {
            id: "cargo-check",
            role: Role::TypeCheck,
            langs: &[Lang::Rust],
            binary: "cargo",
            probe: None,
            version_args: &["--version"],
            install: Install::Builtin,
            config_files: &[],
            template: None,
            scan_args: &["check", "--all-targets", "--message-format=json"],
            output: Output::Json,
            why: "compiler errors without producing a binary",
            note: "Ships with Rust.",
        },
        ToolSpec {
            id: "osv-scanner",
            role: Role::Deps,
            langs: &[],
            binary: "osv-scanner",
            probe: None,
            version_args: &["--version"],
            install: Install::Brew("osv-scanner"),
            config_files: &["osv-scanner.toml"],
            template: None,
            scan_args: &["--format", "sarif", "."],
            output: Output::Sarif,
            why: "known vulnerabilities in your dependency tree, every ecosystem",
            note: "Apache-2.0. Genuine offline mode via --offline with a local database.",
        },
        ToolSpec {
            id: "gofmt",
            role: Role::Format,
            langs: &[Lang::Go],
            binary: "gofmt",
            probe: None,
            version_args: &["-h"],
            install: Install::Builtin,
            config_files: &[],
            template: None,
            scan_args: &["-l", "."],
            output: Output::Text,
            why: "canonical Go formatting; no configuration, no debate",
            note: "Advisory only — formatting never blocks a commit.",
        },
        ToolSpec {
            id: "rustfmt",
            role: Role::Format,
            langs: &[Lang::Rust],
            binary: "rustfmt",
            probe: None,
            version_args: &["--version"],
            install: Install::Manual("rustup component add rustfmt"),
            config_files: &["rustfmt.toml", ".rustfmt.toml"],
            template: None,
            scan_args: &["--check"],
            output: Output::Text,
            why: "canonical Rust formatting",
            note: "Advisory only.",
        },
        ToolSpec {
            id: "ruff-format",
            role: Role::Format,
            langs: &[Lang::Python],
            binary: "ruff",
            probe: None,
            version_args: &["--version"],
            install: Install::Brew("ruff"),
            config_files: &["ruff.toml", ".ruff.toml"],
            template: None,
            scan_args: &["format", "--check"],
            output: Output::Text,
            why: "Black-compatible formatting, same binary as the linter",
            note: "Advisory only.",
        },
        ToolSpec {
            id: "prettier",
            role: Role::Format,
            langs: &[Lang::TypeScript],
            binary: "prettier",
            probe: None,
            version_args: &["--version"],
            install: Install::Npm("prettier"),
            config_files: &[".prettierrc", ".prettierrc.json", "prettier.config.js"],
            template: None,
            scan_args: &["--check", "."],
            output: Output::Text,
            why: "formatting for the JS/TS ecosystem",
            note: "Advisory only. Biome is a faster single-binary alternative.",
        },
        ToolSpec {
            id: "spotless",
            role: Role::Format,
            langs: &[Lang::Java],
            binary: "mvn",
            probe: None,
            version_args: &["--version"],
            install: Install::Manual("add the spotless plugin to pom.xml or build.gradle"),
            config_files: &[],
            template: None,
            scan_args: &["spotless:check"],
            output: Output::Text,
            why: "formatting via your existing build tool",
            note: "Advisory only. Configured in the build file, not standalone.",
        }
    ];
    assert(r@[0]@.version_args =~= spec_registry()[0].version_args);
    assert(r@[0]@.config_files =~= spec_registry()[0].config_files);
    assert(r@[0]@.scan_args =~= spec_registry()[0].scan_args);
    assert(r@[0]@.langs =~= spec_registry()[0].langs);
    assert(r@[0]@ == spec_registry()[0]);
    assert(r@[1]@.version_args =~= spec_registry()[1].version_args);
    assert(r@[1]@.config_files =~= spec_registry()[1].config_files);
    assert(r@[1]@.scan_args =~= spec_registry()[1].scan_args);
    assert(r@[1]@.langs =~= spec_registry()[1].langs);
    assert(r@[1]@ == spec_registry()[1]);
    assert(r@[2]@.version_args =~= spec_registry()[2].version_args);
    assert(r@[2]@.config_files =~= spec_registry()[2].config_files);
    assert(r@[2]@.scan_args =~= spec_registry()[2].scan_args);
    assert(r@[2]@.langs =~= spec_registry()[2].langs);
    assert(r@[2]@ == spec_registry()[2]);
    assert(r@[3]@.version_args =~= spec_registry()[3].version_args);
    assert(r@[3]@.config_files =~= spec_registry()[3].config_files);
    assert(r@[3]@.scan_args =~= spec_registry()[3].scan_args);
    assert(r@[3]@.langs =~= spec_registry()[3].langs);
    assert(r@[3]@ == spec_registry()[3]);
    assert(r@[4]@.version_args =~= spec_registry()[4].version_args);
    assert(r@[4]@.config_files =~= spec_registry()[4].config_files);
    assert(r@[4]@.scan_args =~= spec_registry()[4].scan_args);
    assert(r@[4]@.langs =~= spec_registry()[4].langs);
    assert(r@[4]@ == spec_registry()[4]);
    assert(r@[5]@.version_args =~= spec_registry()[5].version_args);
    assert(r@[5]@.config_files =~= spec_registry()[5].config_files);
    assert(r@[5]@.scan_args =~= spec_registry()[5].scan_args);
    assert(r@[5]@.langs =~= spec_registry()[5].langs);
    assert(r@[5]@ == spec_registry()[5]);
    assert(r@[6]@.version_args =~= spec_registry()[6].version_args);
    assert(r@[6]@.config_files =~= spec_registry()[6].config_files);
    assert(r@[6]@.scan_args =~= spec_registry()[6].scan_args);
    assert(r@[6]@.langs =~= spec_registry()[6].langs);
    assert(r@[6]@ == spec_registry()[6]);
    assert(r@[7]@.version_args =~= spec_registry()[7].version_args);
    assert(r@[7]@.config_files =~= spec_registry()[7].config_files);
    assert(r@[7]@.scan_args =~= spec_registry()[7].scan_args);
    assert(r@[7]@.langs =~= spec_registry()[7].langs);
    assert(r@[7]@ == spec_registry()[7]);
    assert(r@[8]@.version_args =~= spec_registry()[8].version_args);
    assert(r@[8]@.config_files =~= spec_registry()[8].config_files);
    assert(r@[8]@.scan_args =~= spec_registry()[8].scan_args);
    assert(r@[8]@.langs =~= spec_registry()[8].langs);
    assert(r@[8]@ == spec_registry()[8]);
    assert(r@[9]@.version_args =~= spec_registry()[9].version_args);
    assert(r@[9]@.config_files =~= spec_registry()[9].config_files);
    assert(r@[9]@.scan_args =~= spec_registry()[9].scan_args);
    assert(r@[9]@.langs =~= spec_registry()[9].langs);
    assert(r@[9]@ == spec_registry()[9]);
    assert(r@[10]@.version_args =~= spec_registry()[10].version_args);
    assert(r@[10]@.config_files =~= spec_registry()[10].config_files);
    assert(r@[10]@.scan_args =~= spec_registry()[10].scan_args);
    assert(r@[10]@.langs =~= spec_registry()[10].langs);
    assert(r@[10]@ == spec_registry()[10]);
    assert(r@[11]@.version_args =~= spec_registry()[11].version_args);
    assert(r@[11]@.config_files =~= spec_registry()[11].config_files);
    assert(r@[11]@.scan_args =~= spec_registry()[11].scan_args);
    assert(r@[11]@.langs =~= spec_registry()[11].langs);
    assert(r@[11]@ == spec_registry()[11]);
    assert(r@[12]@.version_args =~= spec_registry()[12].version_args);
    assert(r@[12]@.config_files =~= spec_registry()[12].config_files);
    assert(r@[12]@.scan_args =~= spec_registry()[12].scan_args);
    assert(r@[12]@.langs =~= spec_registry()[12].langs);
    assert(r@[12]@ == spec_registry()[12]);
    assert(r@[13]@.version_args =~= spec_registry()[13].version_args);
    assert(r@[13]@.config_files =~= spec_registry()[13].config_files);
    assert(r@[13]@.scan_args =~= spec_registry()[13].scan_args);
    assert(r@[13]@.langs =~= spec_registry()[13].langs);
    assert(r@[13]@ == spec_registry()[13]);
    assert(r@[14]@.version_args =~= spec_registry()[14].version_args);
    assert(r@[14]@.config_files =~= spec_registry()[14].config_files);
    assert(r@[14]@.scan_args =~= spec_registry()[14].scan_args);
    assert(r@[14]@.langs =~= spec_registry()[14].langs);
    assert(r@[14]@ == spec_registry()[14]);
    assert(r@[15]@.version_args =~= spec_registry()[15].version_args);
    assert(r@[15]@.config_files =~= spec_registry()[15].config_files);
    assert(r@[15]@.scan_args =~= spec_registry()[15].scan_args);
    assert(r@[15]@.langs =~= spec_registry()[15].langs);
    assert(r@[15]@ == spec_registry()[15]);
    assert(r@[16]@.version_args =~= spec_registry()[16].version_args);
    assert(r@[16]@.config_files =~= spec_registry()[16].config_files);
    assert(r@[16]@.scan_args =~= spec_registry()[16].scan_args);
    assert(r@[16]@.langs =~= spec_registry()[16].langs);
    assert(r@[16]@ == spec_registry()[16]);
    assert(r@.map_values(|t: ToolSpec| t@) =~= spec_registry());
    r
}

/// No two tools in the registry share an id.
pub proof fn lemma_ids_unique()
    ensures
        forall|a: int, b: int|
            0 <= a < spec_registry().len() && 0 <= b < spec_registry().len() && a != b
                ==> spec_registry()[a].id != spec_registry()[b].id,
{
    reveal_strlit("gitleaks");
    reveal_strlit("opengrep");
    reveal_strlit("golangci-lint");
    reveal_strlit("oxlint");
    reveal_strlit("ruff");
    reveal_strlit("clippy");
    reveal_strlit("pmd");
    reveal_strlit("go-vet");
    reveal_strlit("tsc");
    reveal_strlit("mypy");
    reveal_strlit("cargo-check");
    reveal_strlit("osv-scanner");
    reveal_strlit("gofmt");
    reveal_strlit("rustfmt");
    reveal_strlit("ruff-format");
    reveal_strlit("prettier");
    reveal_strlit("spotless");
    let reg = spec_registry();
    assert forall|a: int, b: int| 0 <= a < reg.len() && 0 <= b < reg.len() && a != b implies reg[a].id
        != reg[b].id by {
        assert(reg[a].id.len() != reg[b].id.len() || reg[a].id[0] != reg[b].id[0]);
    }
}

/// Every language has a linter and a secrets scanner among the tools that apply to it.
pub proof fn every_language_has_a_linter_and_a_secrets_scanner(l: Lang)
    ensures
        exists|k: int| 0 <= k < spec_registry().len() && spec_registry()[k].role == Role::Lint
            && #[trigger] applies(spec_registry()[k], seq![l]),
        exists|k: int| 0 <= k < spec_registry().len() && spec_registry()[k].role == Role::Secrets
            && #[trigger] applies(spec_registry()[k], seq![l]),
{
    let reg = spec_registry();
    assert(applies(reg[0], seq![l]));
    let k: int = match l {
        Lang::Go => 2,
        Lang::TypeScript => 3,
        Lang::Python => 4,
        Lang::Rust => 5,
        Lang::Java => 6,
    };
    assert(reg[k].langs[0] == l);
    assert(seq![l].contains(reg[k].langs[0]));
    assert(applies(reg[k], seq![l]));
}

/// Template paths are relative to the project root: none starts with `/`;
/// and no template is empty.
pub proof fn template_paths_are_relative()
    ensures
        forall|k: int|
            0 <= k < spec_registry().len() && (#[trigger] spec_registry()[k]).template_path is Some
                ==> !seq_starts_with(spec_registry()[k].template_path->0, "/"@),
        forall|k: int|
            0 <= k < spec_registry().len() && (#[trigger] spec_registry()[k]).template_path is Some
                ==> spec_registry()[k].template_contents is Some && spec_registry()[k].template_contents->0.len() > 0,
{
    reveal_strlit(".gitleaks.toml");
    reveal_strlit(".golangci.yml");
    reveal_strlit(".oxlintrc.json");
    reveal_strlit("clippy.toml");
    reveal_strlit("ruff.toml");
    reveal_strlit("/");
    reveal_strlit("# gitleaks configuration. Yours to edit: revd leaves it alone unless run with --force.\ntitle = \"gitleaks config\"\n\n[extend]\n# keep gitleaks' built-in rules and add to them below\nuseDefault = true\n\n[allowlist]\ndescription = \"paths that never hold real credentials\"\npaths = [\n  '''(^|/)testdata/''',\n  '''(^|/)vendor/''',\n  '''\\.lock$''',\n]\n");
    reveal_strlit("# golangci-lint configuration. Yours to edit: revd leaves it alone unless run with --force.\nversion: \"2\"\n\nlinters:\n  default: standard\n  enable:\n    - bodyclose\n    - contextcheck\n    - errorlint\n    - gosec\n    - noctx\n    - nilerr\n\nissues:\n  max-issues-per-linter: 0\n  max-same-issues: 0\n");
    reveal_strlit("{\n  \"categories\": {\n    \"correctness\": \"error\",\n    \"suspicious\": \"warn\"\n  },\n  \"rules\": {\n    \"no-console\": \"warn\",\n    \"no-debugger\": \"error\",\n    \"typescript/no-explicit-any\": \"warn\",\n    \"typescript/no-floating-promises\": \"error\"\n  },\n  \"ignorePatterns\": [\"dist/**\", \"build/**\", \"node_modules/**\"]\n}\n");
    reveal_strlit("# ruff configuration. Yours to edit: revd leaves it alone unless run with --force.\nline-length = 100\n\n[lint]\n# pyflakes, pycodestyle errors, bugbear, bandit, isort, pyupgrade\nselect = [\"F\", \"E\", \"B\", \"S\", \"I\", \"UP\"]\nignore = [\"E501\"]\n\n[lint.per-file-ignores]\n\"tests/**\" = [\"S101\"]\n");
    reveal_strlit("# clippy configuration. Yours to edit: revd leaves it alone unless run with --force.\n# Lint levels live in Cargo.toml ([lints.clippy]); this file tunes thresholds.\ncognitive-complexity-threshold = 30\ntoo-many-arguments-threshold = 8\n");
    let reg = spec_registry();
    assert forall|k: int| 0 <= k < reg.len() && (#[trigger] reg[k]).template_path is Some implies !seq_starts_with(
        reg[k].template_path->0,
        "/"@,
    ) by {
        let p = reg[k].template_path->0;
        assert(p[0] != '/');
        if seq_starts_with(p, "/"@) {
            assert(p.subrange(0, 1)[0] == "/"@[0]);
        }
    }
}

/// A tool that lists no languages applies to every project, whatever it holds.
pub proof fn language_agnostic_tools_apply_everywhere(k: int, langs: Seq<Lang>)
    requires
        0 <= k < spec_registry().len(),
        spec_registry()[k].langs.len() == 0,
    ensures
        applies(spec_registry()[k], langs),
{
}


/// A tool's template is one of its own config files, so the file revd writes
/// is one it recognises as "already set up" on the next run.
pub proof fn templates_are_config_files()
    ensures
        forall|k: int|
            0 <= k < spec_registry().len() && (#[trigger] spec_registry()[k]).template_path is Some
                ==> spec_registry()[k].config_files.contains(spec_registry()[k].template_path->0),
{
    let reg = spec_registry();
    assert forall|k: int| 0 <= k < reg.len() && (#[trigger] reg[k]).template_path is Some implies reg[k].config_files.contains(
        reg[k].template_path->0,
    ) by {
        assert(reg[k].config_files[0] == reg[k].template_path->0);
    }
}

/// Writing a template never changes what revd sees in a project: no template
/// is named like a language marker, nor `.git`.
pub proof fn template_names_are_inert()
    ensures
        forall|k: int, l: Lang, j: int|
            0 <= k < spec_registry().len() && (#[trigger] spec_registry()[k]).template_path is Some && 0 <= j
                < spec_markers(l).len() ==> #[trigger] spec_markers(l)[j] != spec_registry()[k].template_path->0,
        forall|k: int|
            0 <= k < spec_registry().len() && (#[trigger] spec_registry()[k]).template_path is Some
                ==> spec_registry()[k].template_path->0 != ".git"@,
{
    reveal_strlit(".gitleaks.toml");
    reveal_strlit(".golangci.yml");
    reveal_strlit(".oxlintrc.json");
    reveal_strlit("clippy.toml");
    reveal_strlit("ruff.toml");
    reveal_strlit(".git");
    reveal_strlit("go.mod");
    reveal_strlit("go.work");
    reveal_strlit("tsconfig.json");
    reveal_strlit("package.json");
    reveal_strlit("pyproject.toml");
    reveal_strlit("setup.py");
    reveal_strlit("requirements.txt");
    reveal_strlit("Pipfile");
    reveal_strlit("Cargo.toml");
    reveal_strlit("pom.xml");
    reveal_strlit("build.gradle");
    reveal_strlit("build.gradle.kts");
    let reg = spec_registry();
    assert forall|k: int, l: Lang, j: int|
        0 <= k < reg.len() && (#[trigger] reg[k]).template_path is Some && 0 <= j
            < spec_markers(l).len() implies #[trigger] spec_markers(l)[j] != reg[k].template_path->0 by {
        let t = reg[k].template_path->0;
        let m = spec_markers(l)[j];
        if m.len() == t.len() {
            assert(m[0] != t[0]);
        }
    }
    assert forall|k: int| 0 <= k < reg.len() && (#[trigger] reg[k]).template_path is Some implies reg[k].template_path->0
        != ".git"@ by {
        let t = reg[k].template_path->0;
        assert(t.len() != 4);
    }
}

} // verus!
