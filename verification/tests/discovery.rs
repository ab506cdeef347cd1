use slotforge::platform::fs::{DirectoryListing, ListedPath, PathProbe};
use slotforge::services::blacklist_service::IgnoredRegistry;
use slotforge::services::discovery_service::{
    canonical_game_root, collect_candidate_game_dirs, discover_games_from_roots, game_record_at,
    is_save_like_extension, is_save_slot_directory_name, save_file_paths, scan_save_files_in_directory,
    DiscoveryPlan, RootScan, SaveFileFacts,
};
use slotforge::time::UtcTime;

fn dir_probe() -> PathProbe {
    PathProbe { exists: true, is_dir: true, is_file: false }
}

fn file(path: &str) -> ListedPath {
    ListedPath { path: path.to_string(), is_file: true }
}

fn folder(path: &str) -> ListedPath {
    ListedPath { path: path.to_string(), is_file: false }
}

#[test]
fn save_slot_directory_name_detection() {
    assert!(is_save_slot_directory_name("AutoSave-1"));
    assert!(is_save_slot_directory_name("Quicksave"));
    assert!(!is_save_slot_directory_name("Cyberpunk 2077"));
    assert!(!is_save_slot_directory_name("MyGame"));
}

#[test]
fn slot_names_cover_numeric_user_folders() {
    assert!(is_save_slot_directory_name("76561198000000000"));
    assert!(!is_save_slot_directory_name("1234567"));
    assert!(is_save_slot_directory_name("  SAVES "));
    assert!(!is_save_slot_directory_name("   "));
}

#[test]
fn save_like_extensions() {
    assert!(is_save_like_extension("/g/slot1.SAV"));
    assert!(is_save_like_extension("/g/profile.json"));
    assert!(!is_save_like_extension("/g/readme.txt"));
    assert!(!is_save_like_extension("/g/.sav"));
}

#[test]
fn canonical_root_climbs_out_of_slot_folders() {
    let root = "/scan/CD Projekt Red";
    assert_eq!(
        canonical_game_root("/scan/CD Projekt Red/Cyberpunk 2077/AutoSave-1".to_string(), "/scan"),
        "/scan/CD Projekt Red/Cyberpunk 2077"
    );
    // never climbs to the scan root itself
    assert_eq!(canonical_game_root("/scan/saves".to_string(), "/scan"), "/scan/saves");
    assert_eq!(canonical_game_root(format!("{root}/Game"), "/scan"), format!("{root}/Game"));
}

#[test]
fn discovers_save_directories_from_root() {
    let listing = DirectoryListing {
        root: dir_probe(),
        entries: vec![folder("/tmp/root"), folder("/tmp/root/MyGame"), file("/tmp/root/MyGame/slot1.sav")],
    };
    let summary = discover_games_from_roots(
        &vec![RootScan { root: "/tmp/root".to_string(), listing }],
        &IgnoredRegistry { entries: Vec::new() },
    );
    assert_eq!(summary.scanned_roots.len(), 1);
    assert_eq!(summary.discovered_games.len(), 1);
    assert_eq!(summary.discovered_games[0].name, "MyGame");
    assert_eq!(summary.discovered_games[0].active_save_dir, "/tmp/root/MyGame");
    assert_eq!(summary.discovered_games[0].id, "auto:/tmp/root/mygame");
    assert_eq!(summary.discovered_games[0].tags, vec!["auto-discovered".to_string()]);
}

#[test]
fn groups_nested_autosave_slots_under_game_folder() {
    let game = "/tmp/r/CD Projekt Red/Cyberpunk 2077";
    let mut entries = vec![folder("/tmp/r")];
    for slot in ["AutoSave-1", "AutoSave-2", "AutoSave-3"] {
        entries.push(folder(&format!("{game}/{slot}")));
        entries.push(file(&format!("{game}/{slot}/sav.dat")));
    }
    let candidates = collect_candidate_game_dirs("/tmp/r", &entries);
    assert_eq!(candidates, vec![game.to_string()]);
    let summary = discover_games_from_roots(
        &vec![RootScan { root: "/tmp/r".to_string(), listing: DirectoryListing { root: dir_probe(), entries } }],
        &IgnoredRegistry { entries: Vec::new() },
    );
    assert_eq!(summary.discovered_games.len(), 1);
    assert_eq!(summary.discovered_games[0].name, "Cyberpunk 2077");
    assert_eq!(summary.discovered_games[0].active_save_dir, game);
}

#[test]
fn discovery_skips_missing_roots_and_sorts_by_name() {
    let good = DirectoryListing {
        root: dir_probe(),
        entries: vec![file("/r/zeta/a.sav"), file("/r/Alpha/b.dat"), file("/r/notes/readme.txt")],
    };
    let missing = DirectoryListing {
        root: PathProbe { exists: false, is_dir: false, is_file: false },
        entries: vec![file("/m/Game/a.sav")],
    };
    let summary = discover_games_from_roots(
        &vec![
            RootScan { root: "/r".to_string(), listing: good },
            RootScan { root: "/m".to_string(), listing: missing },
        ],
        &IgnoredRegistry { entries: Vec::new() },
    );
    assert_eq!(summary.scanned_roots, vec!["/r".to_string(), "/m".to_string()]);
    let names: Vec<String> = summary.discovered_games.iter().map(|g| g.name.clone()).collect();
    assert_eq!(names, vec!["Alpha".to_string(), "zeta".to_string()]);
}

#[test]
fn game_record_needs_a_name() {
    let now = UtcTime::from_timestamp(1_700_000_000, 0).expect("valid instant");
    assert!(game_record_at("/", now).is_none());
    let g = game_record_at("/x/ My Game ", now).expect("named folder");
    assert_eq!(g.name, "My Game");
    assert_eq!(g.game_root, Some("/x".to_string()));
    assert_eq!(g.created_at, now);
}

#[test]
fn scanned_files_are_relative_and_sorted() {
    let entries = vec![folder("/d"), file("/d/b/2.sav"), file("/d/a.dat"), file("/d/c.txt")];
    let paths = save_file_paths(&entries);
    assert_eq!(paths, vec!["/d/b/2.sav".to_string(), "/d/a.dat".to_string()]);
    let t = UtcTime::from_timestamp(1_600_000_000, 0);
    let facts: Vec<SaveFileFacts> = paths
        .iter()
        .map(|p| SaveFileFacts { path: p.clone(), size: 7, modified_at: t })
        .collect();
    let found = scan_save_files_in_directory("/d", dir_probe(), &facts);
    assert_eq!(found.len(), 2);
    assert_eq!(found[0].relative_path, "a.dat");
    assert_eq!(found[1].relative_path, "b/2.sav");
    assert_eq!(found[1].name, "2.sav");
    assert_eq!(found[1].size, 7);
    assert_eq!(found[1].modified_at, "2020-09-13T12:26:40+00:00");
    let none = scan_save_files_in_directory("/d", PathProbe { exists: false, is_dir: false, is_file: false }, &facts);
    assert!(none.is_empty());
}

#[test]
fn discovery_scans_normalized_distinct_roots() {
    let plan = DiscoveryPlan::new(vec![
        "/scan/./Games".to_string(),
        "/SCAN/games/".to_string(),
        "/other/x/..".to_string(),
    ]);
    assert_eq!(plan.roots(), &vec!["/scan/Games".to_string(), "/other".to_string()]);
    let listing = DirectoryListing {
        root: dir_probe(),
        entries: vec![folder("/scan/Games"), folder("/scan/Games/Hollow"), file("/scan/Games/Hollow/slot1.sav")],
    };
    let missing = DirectoryListing { root: PathProbe { exists: false, is_dir: false, is_file: false }, entries: Vec::new() };
    let summary = plan.discover(vec![listing, missing], &IgnoredRegistry { entries: Vec::new() });
    assert_eq!(summary.scanned_roots, vec!["/scan/Games".to_string(), "/other".to_string()]);
    assert_eq!(summary.discovered_games.len(), 1);
    assert_eq!(summary.discovered_games[0].active_save_dir, "/scan/Games/Hollow");
    assert_eq!(summary.discovered_games[0].name, "Hollow");
}
