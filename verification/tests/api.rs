use slotforge::api::commands::{
    game_snapshots_index, put_game_snapshots, add_game, backup_game, delete_snapshot, destructive_restore_warning, detect_conflicts, find_added_game,
    find_game_and_snapshot, last_backed_up_at, rollback_swap, snapshot_record_from_dto, verify_all_snapshots,
    verify_snapshot, CommandError, IntegrityCache,
};
use slotforge::api::dto::{
    conflict_file_from_comparison, discovered_to_relative_paths, game_to_dto, integrity_from_verified,
    label_color_for_id, metadata_to_dto, snapshot_to_dto, IntegrityStatusDto, LibraryStateDto,
    SaveMetadataDto, SnapshotDto,
};
use slotforge::api::swap_session::{session_to_dto, LastSwapSession};
use slotforge::domain::conflict::SaveFreshness;
use slotforge::domain::game::{GameRecord, GameSource};
use slotforge::domain::save::{SaveMetadata, SaveOrigin, SaveRecord};
use slotforge::platform::fs::{PathContext, PathProbe};
use slotforge::services::discovery_service::DiscoveredSaveFile;
use slotforge::services::library_service::ManualGameRegistry;
use slotforge::services::vault_service::{compare_saves, AnnotationRegistry};
use slotforge::time::UtcTime;

fn t(secs: i64) -> UtcTime {
    UtcTime::from_timestamp(secs, 0).expect("valid instant")
}

fn game() -> GameRecord {
    GameRecord {
        id: "g1".to_string(),
        name: "Game".to_string(),
        game_root: Some("/games".to_string()),
        active_save_dir: "/games/g".to_string(),
        source: GameSource::UserAdded,
        tags: vec!["manual-entry".to_string()],
        created_at: t(0),
        updated_at: t(60),
    }
}

fn record(id: &str, origin: SaveOrigin, modified: Option<UtcTime>, sha: &str) -> SaveRecord {
    SaveRecord {
        id: id.to_string(),
        game_id: "g1".to_string(),
        file_name: "slot.sav".to_string(),
        absolute_path: format!("/vault/Game/{id}.sav"),
        origin,
        label: None,
        note: None,
        label_color: None,
        metadata: SaveMetadata { modified_at: modified, created_at: None, byte_size: 4, sha256: Some(sha.to_string()) },
        archived_at: modified,
    }
}

fn snapshot(r: &SaveRecord) -> SnapshotDto {
    snapshot_to_dto(r, IntegrityStatusDto::Unchecked, vec![r.file_name.clone()])
}

#[test]
fn label_colors_are_stable() {
    // "a" is byte 97: 97 % 6 == 1
    assert_eq!(label_color_for_id("a"), "#ffb800");
    assert_eq!(label_color_for_id(""), "#00f5ff");
    assert_eq!(label_color_for_id("vault:x"), label_color_for_id("vault:x"));
}

#[test]
fn integrity_states() {
    assert_eq!(integrity_from_verified(Some(true)), IntegrityStatusDto::Verified);
    assert_eq!(integrity_from_verified(Some(false)), IntegrityStatusDto::Corrupted);
    assert_eq!(integrity_from_verified(None), IntegrityStatusDto::Unchecked);
    let mut cache = IntegrityCache::new();
    assert_eq!(cache.integrity_for("s"), IntegrityStatusDto::Unchecked);
    cache.set_verified("s", false);
    cache.set_verified("s", true);
    assert_eq!(cache.integrity_for("s"), IntegrityStatusDto::Verified);
    assert_eq!(cache.integrity_for("other"), IntegrityStatusDto::Unchecked);
}

#[test]
fn dto_conversions() {
    let m = SaveMetadata { modified_at: Some(t(1_600_000_000)), created_at: None, byte_size: 9, sha256: None };
    let d = metadata_to_dto(&m);
    assert_eq!(d.modified_at, Some("2020-09-13T12:26:40+00:00".to_string()));
    assert_eq!(d.created_at, None);
    assert_eq!(d.byte_size, 9);
    let r = record("v1", SaveOrigin::Vault, Some(t(5)), "aa");
    let s = snapshot_to_dto(&r, IntegrityStatusDto::Verified, vec!["slot.sav".to_string()]);
    assert_eq!(s.file_count, 1);
    assert_eq!(s.label_color, label_color_for_id("v1"));
    let g = game_to_dto(&game(), None, false, Vec::new());
    assert_eq!(g.created_at, "1970-01-01T00:00:00+00:00");
    assert_eq!(g.game_root, Some("/games".to_string()));
    let files = vec![DiscoveredSaveFile {
        name: "a.sav".to_string(),
        absolute_path: "/d/x/a.sav".to_string(),
        relative_path: "x/a.sav".to_string(),
        size: 1,
        modified_at: String::new(),
    }];
    assert_eq!(discovered_to_relative_paths(&files), vec!["x/a.sav".to_string()]);
}

#[test]
fn conflict_snippets() {
    let older = record("a", SaveOrigin::Vault, Some(t(10)), "x");
    let mut newer = record("b", SaveOrigin::ActiveDirectory, Some(t(20)), "y");
    newer.absolute_path = "/games/g/slot.sav".to_string();
    let c = compare_saves(&older, &newer);
    let d = conflict_file_from_comparison("slot.sav", &c);
    assert_eq!(d.freshness, SaveFreshness::DestinationNewer);
    assert_eq!(d.active_snippet, "ACTIVE  path=/games/g/slot.sav  destination file has newer modification timestamp");
    assert_eq!(d.snapshot_snippet, "VAULT   path=/vault/Game/a.sav  freshness=DestinationNewer");
}

#[test]
fn detects_conflicts_with_active_files() {
    let vault = record("v", SaveOrigin::Vault, Some(t(100)), "h1");
    let active = record("act", SaveOrigin::ActiveDirectory, Some(t(50)), "h0");
    let snaps = vec![snapshot(&vault), snapshot(&active)];
    let active_meta = SaveMetadata { modified_at: Some(t(50)), created_at: None, byte_size: 4, sha256: Some("h0".to_string()) };
    let (any, files) = detect_conflicts(&game(), &snaps, &vec![Some(active_meta.clone()), Some(active_meta)]);
    assert!(any);
    assert_eq!(files.len(), 1);
    assert_eq!(files[0].freshness, SaveFreshness::SourceNewer);
    let (any, files) = detect_conflicts(&game(), &snaps, &vec![None, None]);
    assert!(!any);
    assert!(files.is_empty());
}

#[test]
fn last_backup_is_latest_vault_archive() {
    let a = record("a", SaveOrigin::Vault, Some(t(100)), "1");
    let b = record("b", SaveOrigin::Vault, Some(t(300)), "2");
    let c = record("c", SaveOrigin::ActiveDirectory, Some(t(900)), "3");
    let snaps = vec![snapshot(&a), snapshot(&b), snapshot(&c)];
    assert_eq!(last_backed_up_at(&snaps), Some(t(300)));
    assert_eq!(last_backed_up_at(&Vec::new()), None);
}

#[test]
fn snapshot_reads_back_its_record() {
    let r = record("v", SaveOrigin::Vault, Some(t(1234)), "abc");
    let s = snapshot(&r);
    let back = snapshot_record_from_dto(&game(), &s);
    assert_eq!(back.id, "v");
    assert_eq!(back.metadata.modified_at, Some(t(1234)));
    assert_eq!(back.archived_at, Some(t(1234)));
    assert_eq!(back.metadata.sha256, Some("abc".to_string()));
}

#[test]
fn command_checks() {
    let ctx = PathContext { home: None, vars: Vec::new() };
    let dir = PathProbe { exists: true, is_dir: true, is_file: false };
    let mut reg = ManualGameRegistry { games: Vec::new() };
    let e = add_game(&mut reg, " ", "/x", &ctx, dir).err().expect("blank name");
    assert_eq!(e.message(), "Game name is required.");
    let e = add_game(&mut reg, "G", "  ", &ctx, dir).err().expect("blank path");
    assert_eq!(e.message(), "Game path is required.");
    let added = add_game(&mut reg, "G", "/games/g", &ctx, dir).ok().expect("added");
    let library = LibraryStateDto {
        games: vec![game_to_dto(&added, None, false, Vec::new())],
        vault_by_game_id: Vec::new(),
        last_swap: None,
    };
    assert_eq!(find_added_game(&library, "/GAMES/G").ok(), Some(0));
    assert!(matches!(find_added_game(&library, "/other"), Err(CommandError::AddedGameNotFound)));

    let mut annotations = AnnotationRegistry { entries: Vec::new() };
    let mut cache = IntegrityCache::new();
    let e = backup_game(&Vec::new(), None, None, &mut annotations, &mut cache).err().expect("nothing saved");
    assert_eq!(e.message(), "No save files found to back up in the active save directory.");
    let saved = vec![record("s1", SaveOrigin::Vault, Some(t(1)), "a"), record("s2", SaveOrigin::Vault, Some(t(2)), "b")];
    assert_eq!(backup_game(&saved, Some("Boss".to_string()), None, &mut annotations, &mut cache).ok(), Some(0));
    assert_eq!(cache.integrity_for("s2"), IntegrityStatusDto::Verified);
    assert_eq!(annotations.entries.len(), 1);
    assert_eq!(annotations.entries[0].label, Some("Boss".to_string()));

    let active = snapshot(&record("a1", SaveOrigin::ActiveDirectory, None, "x"));
    let e = delete_snapshot(&active, true).err().expect("active save");
    assert_eq!(e.message(), "Only vault snapshots can be deleted from the vault.");
    let vault = snapshot(&record("v1", SaveOrigin::Vault, None, "x"));
    let req = delete_snapshot(&vault, true).ok().expect("vault save");
    assert_eq!(req.confirmation_phrase, Some("DELETE".to_string()));

    let fresh = SaveMetadata { modified_at: None, created_at: None, byte_size: 4, sha256: Some("y".to_string()) };
    assert!(matches!(verify_snapshot(&mut cache, &vault, false, &fresh), Err(CommandError::SaveFileMissing)));
    assert_eq!(verify_snapshot(&mut cache, &vault, true, &fresh).ok(), Some(false));
    assert_eq!(cache.integrity_for("v1"), IntegrityStatusDto::Corrupted);
    assert_eq!(verify_all_snapshots(&vec![true, false, true]), 2);

    let e = rollback_swap(None).err().expect("no session");
    assert_eq!(e.message(), "No swap to roll back.");
}

#[test]
fn finds_snapshots_and_warns() {
    let v = record("v1", SaveOrigin::Vault, Some(t(1)), "a");
    let library = LibraryStateDto {
        games: vec![game_to_dto(&game(), None, false, Vec::new())],
        vault_by_game_id: vec![("g1".to_string(), vec![snapshot(&v)])],
        last_swap: None,
    };
    let games = vec![game()];
    assert_eq!(find_game_and_snapshot(&library, &games, "v1").ok(), Some((0, 0, 0)));
    let e = find_game_and_snapshot(&library, &games, "nope").err().expect("unknown snapshot");
    assert_eq!(e.message(), "snapshot 'nope' not found");
    let w = destructive_restore_warning(&game(), &snapshot(&v), None);
    assert_eq!(w, "Warning: swapping 'slot.sav' writes directly into the active save directory.");
    let meta = SaveMetadata { modified_at: None, created_at: None, byte_size: 1, sha256: None };
    let w = destructive_restore_warning(&game(), &snapshot(&v), Some(meta));
    assert!(w.contains("will replace active save 'slot.sav'"));
}

#[test]
fn session_shows_previous_active_path() {
    let s = LastSwapSession {
        game_id: "g1".to_string(),
        snapshot_id: "v1".to_string(),
        active_destination_path: "/games/g/slot.sav".to_string(),
        staged_active_backup_path: Some("/vault/Game/slot_1.sav".to_string()),
        restored_at: t(0),
    };
    assert_eq!(session_to_dto(&s).previous_active_path, "/vault/Game/slot_1.sav");
    let mut s2 = s.clone();
    s2.staged_active_backup_path = None;
    assert_eq!(session_to_dto(&s2).previous_active_path, "/games/g/slot.sav");
    assert!(rollback_swap(Some(s)).is_ok());
}

#[test]
fn metadata_dto_is_exposed() {
    let d = SaveMetadataDto { modified_at: None, created_at: None, byte_size: 0, sha256: None };
    assert_eq!(d.byte_size, 0);
}

#[test]
fn snapshot_lists_are_kept_per_game_id() {
    let a = snapshot(&record("a", SaveOrigin::Vault, None, "1"));
    let b = snapshot(&record("b", SaveOrigin::Vault, None, "2"));
    let mut map: Vec<(String, Vec<SnapshotDto>)> = Vec::new();
    put_game_snapshots(&mut map, "g1".to_string(), vec![a.clone()]);
    put_game_snapshots(&mut map, "g2".to_string(), Vec::new());
    put_game_snapshots(&mut map, "g1".to_string(), vec![b]);
    assert_eq!(map.len(), 2);
    let i = game_snapshots_index(&map, "g1").expect("g1 listed");
    assert_eq!(i, 0);
    assert_eq!(map[i].1.len(), 1);
    assert_eq!(map[i].1[0].id, "b");
    assert_eq!(game_snapshots_index(&map, "g3"), None);
}

#[test]
fn api_envelope_reports_the_root_cause() {
    let ok: slotforge::api::error::ApiResponse<u32> = slotforge::api::error::from_anyhow(Ok(7));
    assert!(ok.ok);
    assert_eq!(ok.data, Some(7));
    assert!(ok.error.is_none());
    let failed: slotforge::api::error::ApiResponse<u32> = slotforge::api::error::from_anyhow(Err(vec![
        "failed to back up game".to_string(),
        "permission denied".to_string(),
    ]));
    assert!(!failed.ok);
    assert!(failed.data.is_none());
    let body = failed.error.expect("error body");
    assert_eq!(body.code, "INTERNAL");
    assert_eq!(body.message, "permission denied");
    assert!(body.details.is_none());
    let custom: slotforge::api::error::ApiResponse<u32> =
        slotforge::api::error::ApiResponse::failure("JOIN", "task panicked".to_string());
    assert_eq!(custom.error.map(|e| (e.code, e.message)), Some(("JOIN".to_string(), "task panicked".to_string())));
}

#[test]
fn library_state_shows_every_game_beside_its_list() {
    let mut other = game();
    other.id = "g2".to_string();
    other.name = "Other".to_string();
    let games = vec![game(), other];
    let vault = record("v1", SaveOrigin::Vault, Some(t(1_000)), "aaa");
    let lists = slotforge::api::commands::vault_lists(&games, vec![vec![snapshot(&vault)], Vec::new()]);
    assert_eq!(lists.len(), 2);
    assert_eq!(lists[0].0, "g1");
    assert_eq!(lists[1].1.len(), 0);
    // the active folder holds a different copy of the vaulted file
    let active_meta = SaveMetadata { modified_at: Some(t(2_000)), created_at: None, byte_size: 4, sha256: Some("bbb".to_string()) };
    let session = LastSwapSession {
        game_id: "g1".to_string(),
        snapshot_id: "v1".to_string(),
        active_destination_path: "/games/g/slot.sav".to_string(),
        staged_active_backup_path: None,
        restored_at: t(3_000),
    };
    let state = slotforge::api::commands::library_state(&games, lists, &vec![vec![Some(active_meta)], Vec::new()], Some(session));
    assert_eq!(state.games.len(), 2);
    assert!(state.games[0].has_conflict);
    assert_eq!(state.games[0].conflict_files.len(), 1);
    assert!(state.games[0].last_backed_up_at.is_some());
    assert!(!state.games[1].has_conflict);
    assert!(state.games[1].last_backed_up_at.is_none());
    assert_eq!(state.vault_by_game_id.len(), 2);
    assert_eq!(state.last_swap.map(|d| d.previous_active_path), Some("/games/g/slot.sav".to_string()));
}
