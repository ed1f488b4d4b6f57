use revd::lang::{descend, detect, has_typescript_config, skip_dir, Entry, Lang, Listing};

/// A listing of the given files, with every directory on their way.
fn scratch(files: &[&str]) -> Listing {
    let mut entries: Vec<Entry> = Vec::new();
    for f in files {
        let parts: Vec<String> = f.split('/').map(|s| s.to_string()).collect();
        let (name, dirs) = parts.split_last().unwrap();
        for k in 0..dirs.len() {
            let dir = dirs[..k].to_vec();
            let name = dirs[k].clone();
            if !entries.iter().any(|e| e.is_dir && e.dir == dir && e.name == name) {
                entries.push(Entry { dir, name, is_dir: true });
            }
        }
        entries.push(Entry { dir: dirs.to_vec(), name: name.clone(), is_dir: false });
    }
    Listing { entries }
}

fn langs(files: &[&str], depth: usize) -> Vec<Lang> {
    detect(&scratch(files), depth).into_iter().map(|x| x.lang).collect()
}

#[test]
fn detects_each_language_from_its_marker() {
    let langs = langs(&["go.mod", "Cargo.toml", "pyproject.toml", "pom.xml"], 2);
    assert!(langs.contains(&Lang::Go));
    assert!(langs.contains(&Lang::Rust));
    assert!(langs.contains(&Lang::Python));
    assert!(langs.contains(&Lang::Java));
}

#[test]
fn finds_languages_nested_in_a_monorepo() {
    let langs = langs(&["services/api/go.mod", "web/package.json"], 2);
    assert!(langs.contains(&Lang::Go));
    assert!(langs.contains(&Lang::TypeScript));
}

#[test]
fn ignores_vendored_and_build_directories() {
    let d = scratch(&["node_modules/x/package.json", "vendor/y/go.mod", "target/z/Cargo.toml"]);
    assert!(detect(&d, 3).is_empty());
}

#[test]
fn reports_each_language_once() {
    let d = scratch(&["go.mod", "services/a/go.mod", "services/b/go.mod"]);
    assert_eq!(detect(&d, 2).len(), 1);
}

#[test]
fn reports_languages_in_order_with_the_least_marker_path() {
    let d = scratch(&["services/b/go.mod", "services/a/go.mod", "Cargo.toml", "web/package.json"]);
    let found = detect(&d, 2);
    let got: Vec<(Lang, &str)> = found.iter().map(|x| (x.lang, x.marker.as_str())).collect();
    assert_eq!(
        got,
        vec![(Lang::Go, "services/a/go.mod"), (Lang::TypeScript, "web/package.json"), (Lang::Rust, "Cargo.toml")]
    );
}

#[test]
fn the_strongest_marker_in_a_directory_wins() {
    let d = scratch(&["package.json", "tsconfig.json"]);
    let found = detect(&d, 2);
    assert_eq!(found.len(), 1);
    assert_eq!(found[0].marker, "tsconfig.json");
}

#[test]
fn depth_limits_the_search() {
    assert!(langs(&["a/b/c/go.mod"], 2).is_empty());
    assert_eq!(langs(&["a/b/c/go.mod"], 3), vec![Lang::Go]);
    assert!(langs(&["a/go.mod"], 0).is_empty());
}

#[test]
fn hidden_directories_are_not_searched() {
    assert!(langs(&[".cache/go.mod"], 2).is_empty());
}

#[test]
fn a_directory_named_like_a_marker_is_no_marker() {
    let d = Listing { entries: vec![Entry { dir: Vec::new(), name: "go.mod".to_string(), is_dir: true }] };
    assert!(detect(&d, 2).is_empty());
}

#[test]
fn directory_rules() {
    assert!(skip_dir("node_modules"));
    assert!(!skip_dir("src"));
    assert!(descend("src"));
    assert!(!descend(".github"));
    assert!(!descend("vendor"));
}

#[test]
fn typescript_config_only_at_the_root() {
    assert!(has_typescript_config(&scratch(&["tsconfig.json"])));
    assert!(!has_typescript_config(&scratch(&["package.json", "web/tsconfig.json"])));
}

#[test]
fn language_names() {
    let names: Vec<&str> = Lang::ALL.iter().map(|l| l.as_str()).collect();
    assert_eq!(names, vec!["go", "typescript", "python", "rust", "java"]);
    assert_eq!(Lang::Python.markers()[0], "pyproject.toml");
}
