use opencli_rs::auth::{
    daemon_token_path, home_dir, home_file_path, load_or_create_daemon_token, normalize_token,
    PathStyle,
};
use std::path::PathBuf;

#[test]
fn normalize_token_trims() {
    assert_eq!(normalize_token("  abc \n"), Some("abc".to_string()));
    assert_eq!(normalize_token("\u{3000}tok\u{a0}"), Some("tok".to_string()));
    assert_eq!(normalize_token(" \t\r\n "), None);
    assert_eq!(normalize_token(""), None);
}

#[test]
fn normalize_token_is_idempotent() {
    let once = normalize_token("  a b  ").unwrap();
    assert_eq!(normalize_token(&once), Some(once.clone()));
}

#[test]
fn environment_token_wins() {
    let (t, created) = load_or_create_daemon_token(Some(" env "), Some("file"));
    assert_eq!(t, "env");
    assert!(!created);
}

#[test]
fn file_token_when_environment_blank() {
    let (t, created) = load_or_create_daemon_token(Some("   "), Some("file\n"));
    assert_eq!(t, "file");
    assert!(!created);
    let (t, created) = load_or_create_daemon_token(None, Some("file"));
    assert_eq!(t, "file");
    assert!(!created);
}

#[test]
fn fresh_token_is_simple_v4_uuid() {
    let (t, created) = load_or_create_daemon_token(None, Some(" \n"));
    assert!(created);
    assert_eq!(t.len(), 32);
    assert!(t.chars().all(|c| c.is_ascii_digit() || ('a'..='f').contains(&c)));
    assert_eq!(t.as_bytes()[12], b'4');
    assert!(matches!(t.as_bytes()[16], b'8' | b'9' | b'a' | b'b'));
    let (u, _) = load_or_create_daemon_token(None, None);
    assert_ne!(t, u);
}

#[test]
fn home_dir_prefers_home() {
    assert_eq!(home_dir(Some("/h"), Some("/p")), "/h");
    assert_eq!(home_dir(None, Some("/p")), "/p");
    assert_eq!(home_dir(None, None), ".");
}

#[test]
fn daemon_token_path_under_home() {
    assert_eq!(
        daemon_token_path("/home/me", PathStyle::Unix).unwrap(),
        "/home/me/.autocli/daemon-token"
    );
    assert_eq!(daemon_token_path(".", PathStyle::Unix).unwrap(), "./.autocli/daemon-token");
    assert_eq!(
        daemon_token_path(r"C:\Users\me", PathStyle::Windows).unwrap(),
        r"C:\Users\me\.autocli\daemon-token"
    );
}

#[test]
fn unix_paths_agree_with_pathbuf() {
    for home in ["", "/", "a", "a/", "/home/u", "//x//", r"a\b", "C:", "é/ü"] {
        let want = PathBuf::from(home).join(".autocli").join("daemon-token");
        assert_eq!(
            daemon_token_path(home, PathStyle::Unix),
            Some(want.to_str().unwrap().to_string()),
            "{:?}",
            home
        );
    }
}

#[test]
fn windows_separator_rules() {
    let w = |h: &str| home_file_path(h, "d", "f", PathStyle::Windows);
    assert_eq!(w(r"C:\Users\").unwrap(), r"C:\Users\d\f");
    assert_eq!(w("C:/Users/").unwrap(), r"C:/Users/d\f");
    assert_eq!(w("C:").unwrap(), r"C:d\f");
    assert_eq!(w("1:").unwrap(), r"1:\d\f");
    assert_eq!(w("").unwrap(), r"d\f");
    assert_eq!(w(r"\\server\share").unwrap(), r"\\server\share\d\f");
    assert_eq!(w(r"\\?\C:\Users"), None);
    assert_eq!(w(r"\\?"), None);
    assert_eq!(
        home_file_path(r"\\?\C:\Users", "d", "f", PathStyle::Unix).unwrap(),
        r"\\?\C:\Users/d/f"
    );
}
