use slotforge::platform::fs::{
    file_name, join, normalize_and_dedup_paths, normalize_path, parent, resolve_path, same_path,
    starts_with_path, strip_prefix, validate_directory, DirectoryError, PathContext, PathProbe,
};

#[test]
fn normalize_removes_dot_segments() {
    let normalized = normalize_path("games/./slotforge/../saves");
    assert_eq!(normalized, "games/saves");
}

#[test]
fn resolve_windows_env_style_path() {
    let ctx = PathContext {
        home: None,
        vars: vec![("SLOTFORGE_TEST_ROOT".to_string(), r"C:\Games".to_string())],
    };
    let resolved = resolve_path(r"%SLOTFORGE_TEST_ROOT%\CallOfDuty\..\Saves", &ctx);
    assert!(resolved.contains(r"C:\Games"));
    assert!(resolved.ends_with(r"Saves"));
}

#[test]
fn resolve_unix_env_style_path() {
    let ctx = PathContext {
        home: None,
        vars: vec![("SLOTFORGE_TEST_ROOT".to_string(), "/tmp/games".to_string())],
    };
    let resolved = resolve_path("${SLOTFORGE_TEST_ROOT}/mygame/../saves", &ctx);
    assert_eq!(resolved, "/tmp/games/saves");
}

#[test]
fn resolve_expands_home_and_percent_markers() {
    let ctx = PathContext {
        home: Some("/home/player".to_string()),
        vars: vec![("SAVES".to_string(), "Saved Games".to_string())],
    };
    assert_eq!(resolve_path("~/%SAVES%/x/./y", &ctx), "/home/player/Saved Games/x/y");
    // an unknown variable is left as written
    assert_eq!(resolve_path("${NOPE}/a", &ctx), "${NOPE}/a");
}

#[test]
fn normalize_is_idempotent_on_examples() {
    for p in ["/a/b/../c/./d", "a/./b/", "../x/y", "/", ""] {
        let once = normalize_path(p);
        assert_eq!(normalize_path(&once), once);
    }
}

#[test]
fn normalize_keeps_root_and_drops_parent_of_root() {
    assert_eq!(normalize_path("/a/../.."), "/");
    assert_eq!(normalize_path("/a//b/"), "/a/b");
}

#[test]
fn dedup_keeps_first_of_case_variants() {
    let out = normalize_and_dedup_paths(vec![
        "/Games/A".to_string(),
        "/games/a/.".to_string(),
        "/games/b".to_string(),
    ]);
    assert_eq!(out, vec!["/Games/A".to_string(), "/games/b".to_string()]);
    assert_eq!(normalize_and_dedup_paths(out.clone()), out);
}

#[test]
fn path_parts() {
    assert_eq!(file_name("/a/b/save.dat"), Some("save.dat".to_string()));
    assert_eq!(file_name("/"), None);
    assert_eq!(parent("/a/b"), Some("/a".to_string()));
    assert_eq!(parent("/"), None);
    assert_eq!(join("/a", "b"), "/a/b");
    assert_eq!(join("/a/", "b"), "/a/b");
    assert_eq!(join("/a", "/b"), "/b");
    assert!(starts_with_path("/a/b/c", "/a/b"));
    assert!(!starts_with_path("/a/bc", "/a/b"));
    assert!(same_path("/a/b/", "/a/b"));
    assert_eq!(strip_prefix("/root/dir/x.sav", "/root"), Some("dir/x.sav".to_string()));
    assert_eq!(strip_prefix("/other/x.sav", "/root"), None);
}

#[test]
fn validate_directory_errors() {
    let missing = PathProbe { exists: false, is_dir: false, is_file: false };
    let file = PathProbe { exists: true, is_dir: false, is_file: true };
    let dir = PathProbe { exists: true, is_dir: true, is_file: false };
    match validate_directory("/x", missing) {
        Err(e) => {
            assert!(matches!(e, DirectoryError::Missing(_)));
            assert_eq!(e.message(), "directory does not exist: /x");
        }
        Ok(()) => panic!("missing directory accepted"),
    }
    match validate_directory("/x", file) {
        Err(e) => assert_eq!(e.message(), "path is not a directory: /x"),
        Ok(()) => panic!("file accepted as directory"),
    }
    assert!(validate_directory("/x", dir).is_ok());
}

#[test]
fn white_space_matches_std_on_every_character() {
    for c in (0u32..=0x10FFFF).filter_map(char::from_u32) {
        assert_eq!(slotforge::text::is_white_space(c), c.is_whitespace(), "U+{:04X}", c as u32);
    }
}
