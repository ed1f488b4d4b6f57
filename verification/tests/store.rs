use revd::store::{timestamp, MAX_TIMESTAMP};
use revd::store::{db_path, now, path_file_name, repo_name, revd_dir, socket_path};

#[test]
fn paths_under_the_home_directory() {
    let dir = revd_dir("/home/me");
    assert_eq!(dir, "/home/me/.revd");
    assert_eq!(socket_path(&dir), "/home/me/.revd/revd.sock");
    assert_eq!(db_path(&dir), "/home/me/.revd/revd.db");
}

#[test]
fn repository_names() {
    assert_eq!(repo_name("/work/proj"), "proj");
    assert_eq!(repo_name("/work/proj/"), "proj");
    assert_eq!(repo_name("/work/proj/."), "proj");
    assert_eq!(repo_name("/"), "/");
    assert_eq!(repo_name("/work/.."), "/work/..");
    assert_eq!(repo_name("plain"), "plain");
}

#[test]
fn file_names_follow_path_rules() {
    assert_eq!(path_file_name("a/b.txt"), Some("b.txt".to_string()));
    assert_eq!(path_file_name("."), None);
    assert_eq!(path_file_name(""), None);
    assert_eq!(path_file_name("./x"), Some("x".to_string()));
    for p in ["/a/b", "a//b/", "x/./", "../y", "/"] {
        let want = std::path::Path::new(p).file_name().map(|s| s.to_string_lossy().to_string());
        assert_eq!(path_file_name(p), want, "{}", p);
    }
}

#[test]
fn now_is_an_rfc3339_timestamp() {
    let t = now().expect("the clock reads after 1970");
    assert!(chrono::DateTime::parse_from_rfc3339(&t).is_ok(), "{}", t);
}

#[test]
fn timestamps_from_unix_time() {
    assert_eq!(timestamp(0, 0).as_deref(), Some("1970-01-01T00:00:00+00:00"));
    assert_eq!(timestamp(1431648000, 500_000_000).as_deref(), Some("2015-05-15T00:00:00.500+00:00"));
    assert!(timestamp(MAX_TIMESTAMP, 999_999_999).is_some());
    assert!(timestamp(MAX_TIMESTAMP + 1, 0).is_none());
    assert!(timestamp(0, 1_000_000_000).is_none());
    // the bound is chrono's own
    assert!(chrono::DateTime::from_timestamp(MAX_TIMESTAMP as i64, 0).is_some());
    assert!(chrono::DateTime::from_timestamp(MAX_TIMESTAMP as i64 + 1, 0).is_none());
}
