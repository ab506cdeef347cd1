use slotforge::domain::game::{GameRecord, GameSource};
use slotforge::platform::fs::{PathContext, PathProbe};
use slotforge::services::blacklist_service::IgnoredRegistry;
use slotforge::services::discovery_service::DiscoverySummary;
use slotforge::services::library_service::{
    add_manual_game_at, build_canonical_library, edit_manual_game_at, identity_key_for_path,
    list_manual_games, remove_manual_game, LibraryError, ManualGameRegistry,
};
use slotforge::time::UtcTime;

fn t(secs: i64) -> UtcTime {
    UtcTime::from_timestamp(secs, 0).expect("valid instant")
}

fn ctx() -> PathContext {
    PathContext { home: Some("/home/p".to_string()), vars: Vec::new() }
}

fn dir() -> PathProbe {
    PathProbe { exists: true, is_dir: true, is_file: false }
}

fn auto_game(name: &str, dir: &str) -> GameRecord {
    GameRecord {
        id: format!("auto:{}", dir.to_lowercase()),
        name: name.to_string(),
        game_root: None,
        active_save_dir: dir.to_string(),
        source: GameSource::AutoDiscovered,
        tags: vec!["auto-discovered".to_string()],
        created_at: t(10),
        updated_at: t(10),
    }
}

#[test]
fn manual_game_is_added_then_updated() {
    let mut reg = ManualGameRegistry { games: Vec::new() };
    let g = add_manual_game_at(&mut reg, "  Elden Ring ", "~/saves/er/./", &ctx(), dir(), t(100))
        .unwrap_or_else(|e| panic!("{}", e.message()));
    assert_eq!(g.id, "manual:elden ring:/home/p/saves/er");
    assert_eq!(g.name, "Elden Ring");
    assert_eq!(g.active_save_dir, "/home/p/saves/er");
    assert_eq!(g.game_root, Some("/home/p/saves".to_string()));
    assert_eq!(g.tags, vec!["manual-entry".to_string()]);
    assert_eq!(reg.games.len(), 1);
    let again = add_manual_game_at(&mut reg, "Elden Ring", "/home/p/saves/er", &ctx(), dir(), t(200))
        .unwrap_or_else(|e| panic!("{}", e.message()));
    assert_eq!(reg.games.len(), 1);
    assert_eq!(again.created_at, t(100));
    assert_eq!(again.updated_at, t(200));
}

#[test]
fn manual_game_errors() {
    let mut reg = ManualGameRegistry { games: Vec::new() };
    let e = add_manual_game_at(&mut reg, "  ", "/x", &ctx(), dir(), t(1)).err().expect("blank name");
    assert!(matches!(e, LibraryError::EmptyName));
    assert_eq!(e.message(), "manual game name cannot be empty");
    let e = add_manual_game_at(&mut reg, "A", ".", &ctx(), dir(), t(1)).err().expect("empty path");
    assert_eq!(e.message(), "manual save path cannot be empty");
    let missing = PathProbe { exists: false, is_dir: false, is_file: false };
    let e = add_manual_game_at(&mut reg, "A", "/nope", &ctx(), missing, t(1)).err().expect("missing dir");
    assert_eq!(e.message(), "directory does not exist: /nope");
    let e = edit_manual_game_at(&mut reg, "manual:x", "A", "/x", &ctx(), dir(), t(1)).err().expect("unknown id");
    assert_eq!(e.message(), "manual game with id 'manual:x' was not found");
    assert!(reg.games.is_empty());
}

#[test]
fn manual_games_listed_by_name_and_removed() {
    let mut reg = ManualGameRegistry { games: Vec::new() };
    let _ = add_manual_game_at(&mut reg, "zeta", "/z", &ctx(), dir(), t(1));
    let b = add_manual_game_at(&mut reg, "Beta", "/b", &ctx(), dir(), t(1)).ok().expect("added");
    let listed: Vec<String> = list_manual_games(&reg).iter().map(|g| g.name.clone()).collect();
    assert_eq!(listed, vec!["Beta".to_string(), "zeta".to_string()]);
    let edited = edit_manual_game_at(&mut reg, &b.id, "Gamma", "/g", &ctx(), dir(), t(5)).ok().expect("edited");
    assert_eq!(edited.id, b.id);
    assert_eq!(edited.name, "Gamma");
    remove_manual_game(&mut reg, &b.id);
    assert_eq!(reg.games.len(), 1);
    assert_eq!(reg.games[0].name, "zeta");
}

#[test]
fn identity_key_is_lowercase_normalized() {
    assert_eq!(identity_key_for_path("/Games/X/./Saves/"), "/games/x/saves");
}

#[test]
fn manual_entry_claims_discovered_game() {
    let discovered = DiscoverySummary {
        scanned_roots: vec!["/g".to_string()],
        discovered_games: vec![auto_game("cyberpunk", "/g/Cyberpunk"), auto_game("Alpha", "/g/Alpha")],
    };
    let mut manual = auto_game("Cyberpunk 2077", "/G/cyberpunk/.");
    manual.id = "manual:cp".to_string();
    manual.source = GameSource::UserAdded;
    manual.tags = vec!["manual-entry".to_string()];
    manual.updated_at = t(99);
    let merged = build_canonical_library(discovered, vec![manual], &IgnoredRegistry { entries: Vec::new() });
    assert_eq!(merged.len(), 2);
    assert_eq!(merged[0].name, "Alpha");
    let claimed = &merged[1];
    assert_eq!(claimed.id, "manual:cp");
    assert_eq!(claimed.name, "Cyberpunk 2077");
    assert_eq!(claimed.source, GameSource::UserAdded);
    assert_eq!(claimed.active_save_dir, "/g/Cyberpunk");
    assert_eq!(claimed.tags, vec!["auto-discovered".to_string(), "manual-entry".to_string()]);
    assert_eq!(claimed.updated_at, t(99));
    assert_eq!(claimed.created_at, t(10));
}

#[test]
fn identity_key_ignores_spelling_of_the_folder() {
    assert_eq!(identity_key_for_path("/Games/./Foo/../Bar"), "/games/bar");
    assert_eq!(identity_key_for_path("/Games/./Foo/../Bar"), identity_key_for_path("/games/bar"));
    assert_eq!(identity_key_for_path("/GAMES/Bar/."), identity_key_for_path("/games/BAR"));
}
