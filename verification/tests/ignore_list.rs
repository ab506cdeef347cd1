use slotforge::platform::fs::PathContext;
use slotforge::services::blacklist_service::{
    add_ignored_path, is_path_ignored, list_ignored, paths_overlap, remove_ignored_path, IgnoreError,
    IgnoredRegistry,
};

fn ctx() -> PathContext {
    PathContext { home: Some("/home/p".to_string()), vars: Vec::new() }
}

#[test]
fn paths_overlap_exact_and_child() {
    let (parent, child, sibling) = (
        "/games/cyberpunk",
        "/games/cyberpunk/saves/slot1",
        "/games/cyberpunk2077",
    );
    assert!(paths_overlap(parent, parent));
    assert!(paths_overlap(child, parent));
    assert!(!paths_overlap(sibling, parent));
}

#[test]
fn added_folder_and_children_are_ignored() {
    let mut reg = IgnoredRegistry { entries: Vec::new() };
    let entry = add_ignored_path(&mut reg, "  /games/old/./game ", Some(" Old ".to_string()), &ctx())
        .unwrap_or_else(|_| panic!("add refused"));
    assert_eq!(entry.path, "/games/old/game");
    assert_eq!(entry.name, Some("Old".to_string()));
    assert!(is_path_ignored(&reg, "/games/old/game"));
    assert!(is_path_ignored(&reg, "/games/old/game/saves/1.sav"));
    assert!(!is_path_ignored(&reg, "/games/old/gamex"));
    // adding again updates the entry rather than adding a second one
    let _ = add_ignored_path(&mut reg, "/games/old/game", None, &ctx());
    assert_eq!(reg.entries.len(), 1);
    assert_eq!(reg.entries[0].name, Some("Old".to_string()));
    remove_ignored_path(&mut reg, "/games/old/game", &ctx()).unwrap_or_else(|_| panic!("remove"));
    assert!(!is_path_ignored(&reg, "/games/old/game"));
}

#[test]
fn empty_ignore_path_is_refused() {
    let mut reg = IgnoredRegistry { entries: Vec::new() };
    match add_ignored_path(&mut reg, "   ", None, &ctx()) {
        Err(e) => {
            assert!(matches!(e, IgnoreError::EmptyPath));
        }
        Ok(_) => panic!("blank path accepted"),
    }
    assert!(reg.entries.is_empty());
}

#[test]
fn ignored_list_is_sorted_by_name() {
    let mut reg = IgnoredRegistry { entries: Vec::new() };
    let _ = add_ignored_path(&mut reg, "/g/zeta", Some("zeta".to_string()), &ctx());
    let _ = add_ignored_path(&mut reg, "/g/alpha", Some("Alpha".to_string()), &ctx());
    let listed = list_ignored(&reg);
    assert_eq!(listed[0].path, "/g/alpha");
    assert_eq!(listed[1].path, "/g/zeta");
}
