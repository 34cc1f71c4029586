use tms::dirty_paths::{normalize_path, DirtyUtf8Path, OsPath};
use tms::error::TmsError;

#[test]
fn test_normalize_path_removes_duplicate_slashes() {
    assert_eq!(normalize_path("//home/user/git/repo"), "/home/user/git/repo");
    assert_eq!(normalize_path("/home//user/git/repo"), "/home/user/git/repo");
    assert_eq!(normalize_path("/home/user//git//repo"), "/home/user/git/repo");
    assert_eq!(normalize_path("///home/user/git/repo"), "/home/user/git/repo");
}

#[test]
fn test_normalize_path_preserves_single_slashes() {
    assert_eq!(normalize_path("/home/user/git/repo"), "/home/user/git/repo");
    assert_eq!(normalize_path("/"), "/");
}

#[test]
fn test_normalize_path_preserves_relative_paths() {
    assert_eq!(normalize_path("home/user/git/repo"), "home/user/git/repo");
    assert_eq!(normalize_path("./git/repo"), "./git/repo");
}

#[test]
fn normalize_path_is_idempotent_on_samples() {
    for raw in ["", "/", "//", "a//b///c/", "////x", "a/", "é//ü/"] {
        let once = normalize_path(raw);
        let twice = normalize_path(&once);
        assert_eq!(once, twice);
    }
}

#[test]
fn normalize_path_drops_trailing_separator_but_keeps_root() {
    assert_eq!(normalize_path("a/b/"), "a/b");
    assert_eq!(normalize_path("a/b///"), "a/b");
    assert_eq!(normalize_path("///"), "/");
    assert_eq!(normalize_path(""), "");
}

#[test]
fn non_utf8_path_is_rejected() {
    let path = OsPath { bytes: vec![b'/', 0xff, 0xfe] };
    assert_eq!(path.to_string(), Err(TmsError::NonUtf8Path));
}

#[test]
fn utf8_path_is_normalized() {
    let path = OsPath { bytes: "/home//user/".as_bytes().to_vec() };
    assert_eq!(path.to_string(), Ok("/home/user".to_string()));
}
