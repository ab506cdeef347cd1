use slotforge::domain::conflict::ResolutionChoice;
use slotforge::domain::game::{GameRecord, GameSource};
use slotforge::domain::save::{SaveMetadata, SaveOrigin, SaveRecord};
use slotforge::platform::fs::{DirectoryListing, ListedPath, PathProbe};
use slotforge::services::swap_service::{
    SwapAction, SwapError, SwapEvent, SwapMachine, SwapPhase, SwapPreflightReport, SwapTransactionRequest,
};
use slotforge::services::vault_service::{AnnotationRegistry, BackupAction, BackupEvent, BackupMachine};
use slotforge::time::UtcTime;

fn t(secs: i64) -> UtcTime {
    UtcTime::from_timestamp(secs, 0).expect("valid instant")
}

fn game() -> GameRecord {
    GameRecord {
        id: "g".to_string(),
        name: "Game".to_string(),
        game_root: None,
        active_save_dir: "/active".to_string(),
        source: GameSource::UserAdded,
        tags: Vec::new(),
        created_at: t(0),
        updated_at: t(0),
    }
}

fn meta(sha: &str) -> SaveMetadata {
    SaveMetadata { modified_at: Some(t(100)), created_at: None, byte_size: 8, sha256: Some(sha.to_string()) }
}

fn selected() -> SaveRecord {
    SaveRecord {
        id: "vault:g:/vault/game/slot.sav".to_string(),
        game_id: "g".to_string(),
        file_name: "slot.sav".to_string(),
        absolute_path: "/vault/Game/slot.sav".to_string(),
        origin: SaveOrigin::Vault,
        label: None,
        note: None,
        label_color: None,
        metadata: meta("abc"),
        archived_at: Some(t(100)),
    }
}

fn ready_report() -> SwapPreflightReport {
    SwapPreflightReport {
        source_exists: true,
        source_is_file: true,
        destination_exists: true,
        destination_is_dir: true,
        source_readable: true,
        destination_writable: true,
        required_bytes: 8,
        available_bytes: Some(1024),
    }
}

fn request(confirmed: bool, choice: Option<ResolutionChoice>) -> SwapTransactionRequest {
    SwapTransactionRequest { game: game(), selected_vault_save: selected(), resolution_choice: choice, confirmed_destructive_action: confirmed }
}

#[test]
fn swap_into_empty_slot_succeeds_after_verification() {
    let (mut m, a) = SwapMachine::start(request(false, None));
    assert!(matches!(a, SwapAction::RunPreflight(_)));
    let a = m.on_event(SwapEvent::Preflight(ready_report()));
    match a {
        SwapAction::ProbeActive { path } => assert_eq!(path, "/active/slot.sav"),
        _ => panic!("expected the active probe"),
    }
    let a = m.on_event(SwapEvent::ActiveProbed { exists: false });
    match a {
        SwapAction::CopyIntoPlace { from, to } => {
            assert_eq!(from, "/vault/Game/slot.sav");
            assert_eq!(to, "/active/slot.sav");
        }
        _ => panic!("expected the copy"),
    }
    assert!(matches!(m.on_event(SwapEvent::Copied(Ok(()))), SwapAction::ReadPlacedMetadata { .. }));
    assert!(matches!(m.on_event(SwapEvent::PlacedMetadata(Ok(meta("abc")))), SwapAction::ReadFinalMetadata { .. }));
    assert!(matches!(m.on_event(SwapEvent::FinalMetadata(Ok(meta("abc")))), SwapAction::Finish));
    assert_eq!(m.phase(), SwapPhase::Finished);
    let (outcome, recovered) = m.outcome();
    match outcome {
        Some(Ok(r)) => {
            assert_eq!(r.active_destination_path, "/active/slot.sav");
            assert_eq!(r.staged_active_backup_path, None);
        }
        _ => panic!("swap should succeed"),
    }
    assert!(!recovered);
}

#[test]
fn failed_preflight_stops_the_swap() {
    let (mut m, _) = SwapMachine::start(request(false, None));
    let mut report = ready_report();
    report.available_bytes = Some(1);
    assert!(matches!(m.on_event(SwapEvent::Preflight(report)), SwapAction::Finish));
    match m.outcome().0 {
        Some(Err(e)) => assert!(e.message().starts_with("swap preflight failed (src_exists=true")),
        _ => panic!("expected a preflight failure"),
    }
}

#[test]
fn existing_active_save_needs_confirmation() {
    let (mut m, _) = SwapMachine::start(request(false, None));
    m.on_event(SwapEvent::Preflight(ready_report()));
    assert!(matches!(m.on_event(SwapEvent::ActiveProbed { exists: true }), SwapAction::ReadActiveMetadata { .. }));
    assert!(matches!(m.on_event(SwapEvent::ActiveMetadata(Ok(meta("old")))), SwapAction::Finish));
    match m.outcome().0 {
        Some(Err(e)) => {
            assert!(matches!(e, SwapError::ConfirmationRequired));
            assert_eq!(e.message(), "swap blocked: confirmation required before replacing active save");
        }
        _ => panic!("expected a refusal"),
    }
}

#[test]
fn confirmed_swap_stages_then_rolls_back_a_failed_copy() {
    let (mut m, _) = SwapMachine::start(request(true, Some(ResolutionChoice::KeepSource)));
    m.on_event(SwapEvent::Preflight(ready_report()));
    m.on_event(SwapEvent::ActiveProbed { exists: true });
    let a = m.on_event(SwapEvent::ActiveMetadata(Ok(meta("old"))));
    assert!(matches!(a, SwapAction::LoadVaultRoot));
    match m.on_event(SwapEvent::VaultRoot(Ok("/vault".to_string()))) {
        SwapAction::EnsureVaultDir { path } => assert_eq!(path, "/vault/Game"),
        _ => panic!("expected the game's vault folder"),
    }
    match m.on_event(SwapEvent::VaultDirReady(Ok(()))) {
        SwapAction::ProbeStagingPath { path } => assert_eq!(path, "/vault/Game/slot.sav"),
        _ => panic!("expected the plain staging name to be probed"),
    }
    let numbered = match m.on_event(SwapEvent::StagingPathExists(true)) {
        SwapAction::ProbeStagingPath { path } => {
            assert!(path.starts_with("/vault/Game/slot_"));
            assert!(path.ends_with("_1.sav"));
            path
        }
        _ => panic!("expected the first numbered name"),
    };
    match m.on_event(SwapEvent::StagingPathExists(false)) {
        SwapAction::StageActive { active_path, staged_path } => {
            assert_eq!(active_path, "/active/slot.sav");
            assert_eq!(staged_path, numbered);
        }
        _ => panic!("expected the active save to be staged"),
    }
    assert!(matches!(m.on_event(SwapEvent::Staged(Ok(()))), SwapAction::CopyIntoPlace { .. }));
    match m.on_event(SwapEvent::Copied(Err("disk full".to_string()))) {
        SwapAction::Rollback { active_path, staged_path } => {
            assert_eq!(active_path, "/active/slot.sav");
            assert_eq!(staged_path, Some(numbered.clone()));
        }
        _ => panic!("expected a rollback"),
    }
    assert!(matches!(m.on_event(SwapEvent::RolledBack(Ok(()))), SwapAction::Finish));
    let (outcome, recovered) = m.outcome();
    match outcome {
        Some(Err(e)) => assert_eq!(
            e.message(),
            "failed to copy selected save /vault/Game/slot.sav into active location /active/slot.sav"
        ),
        _ => panic!("expected the copy failure"),
    }
    assert!(recovered);
}

#[test]
fn corrupted_placement_is_rolled_back() {
    let (mut m, _) = SwapMachine::start(request(false, None));
    m.on_event(SwapEvent::Preflight(ready_report()));
    m.on_event(SwapEvent::ActiveProbed { exists: false });
    m.on_event(SwapEvent::Copied(Ok(())));
    assert!(matches!(m.on_event(SwapEvent::PlacedMetadata(Ok(meta("zzz")))), SwapAction::Rollback { .. }));
    m.on_event(SwapEvent::RolledBack(Ok(())));
    match m.outcome().0 {
        Some(Err(e)) => assert_eq!(e.message(), "swap verification failed after file placement"),
        _ => panic!("expected the verification failure"),
    }
}

#[test]
fn backup_copies_verifies_and_records() {
    let (mut m, a) = BackupMachine::start(game());
    assert!(matches!(a, BackupAction::LoadVaultRoot));
    match m.on_event(BackupEvent::VaultRoot(Ok("/vault".to_string()))) {
        BackupAction::EnsureDirectory { path } => assert_eq!(path, "/vault/Game"),
        _ => panic!("expected the vault folder"),
    }
    assert!(matches!(m.on_event(BackupEvent::DirectoryReady(Ok(()))), BackupAction::ListActiveDirectory { .. }));
    let listing = DirectoryListing {
        root: PathProbe { exists: true, is_dir: true, is_file: false },
        entries: vec![
            ListedPath { path: "/active".to_string(), is_file: false },
            ListedPath { path: "/active/slot.sav".to_string(), is_file: true },
        ],
    };
    match m.on_event(BackupEvent::ActiveListing(Ok(listing))) {
        BackupAction::ProbeDestination { path } => assert_eq!(path, "/vault/Game/slot.sav"),
        _ => panic!("expected the plain name to be probed"),
    }
    match m.on_event(BackupEvent::DestinationExists(false)) {
        BackupAction::CopyFile { from, to } => {
            assert_eq!(from, "/active/slot.sav");
            assert_eq!(to, "/vault/Game/slot.sav");
        }
        _ => panic!("expected the copy"),
    }
    assert!(matches!(m.on_event(BackupEvent::Copied(Ok(()))), BackupAction::ReadPairMetadata { .. }));
    assert!(matches!(
        m.on_event(BackupEvent::PairMetadata(Ok((meta("abc"), meta("abc"))))),
        BackupAction::ReadMetadata { .. }
    ));
    assert!(matches!(m.on_event(BackupEvent::RecordMetadata(Ok(meta("abc")))), BackupAction::LoadAnnotations));
    assert!(matches!(
        m.on_event(BackupEvent::Annotations(Ok(AnnotationRegistry { entries: Vec::new() }))),
        BackupAction::Finish
    ));
    match m.outcome() {
        Some(Ok(records)) => {
            assert_eq!(records.len(), 1);
            assert_eq!(records[0].id, "vault:g:/vault/game/slot.sav");
            assert_eq!(records[0].origin, SaveOrigin::Vault);
            assert!(records[0].archived_at.is_some());
        }
        _ => panic!("backup should succeed"),
    }
}

#[test]
fn backup_of_missing_folder_fails() {
    let (mut m, _) = BackupMachine::start(game());
    m.on_event(BackupEvent::VaultRoot(Ok("/vault".to_string())));
    m.on_event(BackupEvent::DirectoryReady(Ok(())));
    let listing = DirectoryListing { root: PathProbe { exists: false, is_dir: false, is_file: false }, entries: Vec::new() };
    assert!(matches!(m.on_event(BackupEvent::ActiveListing(Ok(listing))), BackupAction::Finish));
    match m.outcome() {
        Some(Err(e)) => assert_eq!(e.message(), "active save directory does not exist: /active"),
        _ => panic!("expected the missing folder"),
    }
}

#[test]
fn backup_with_mismatched_copy_fails() {
    let (mut m, _) = BackupMachine::start(game());
    m.on_event(BackupEvent::VaultRoot(Ok("/vault".to_string())));
    m.on_event(BackupEvent::DirectoryReady(Ok(())));
    let listing = DirectoryListing {
        root: PathProbe { exists: true, is_dir: true, is_file: false },
        entries: vec![ListedPath { path: "/active/slot.sav".to_string(), is_file: true }],
    };
    m.on_event(BackupEvent::ActiveListing(Ok(listing)));
    m.on_event(BackupEvent::DestinationExists(false));
    m.on_event(BackupEvent::Copied(Ok(())));
    assert!(matches!(m.on_event(BackupEvent::PairMetadata(Ok((meta("abc"), meta("xyz"))))), BackupAction::Finish));
    match m.outcome() {
        Some(Err(e)) => assert_eq!(
            e.message(),
            "backup integrity verification failed for /active/slot.sav -> /vault/Game/slot.sav"
        ),
        _ => panic!("expected the integrity failure"),
    }
}

#[test]
fn backup_takes_a_numbered_name_when_the_plain_one_is_taken() {
    let (mut m, _) = BackupMachine::start(game());
    m.on_event(BackupEvent::VaultRoot(Ok("/vault".to_string())));
    m.on_event(BackupEvent::DirectoryReady(Ok(())));
    let listing = DirectoryListing {
        root: PathProbe { exists: true, is_dir: true, is_file: false },
        entries: vec![
            ListedPath { path: "/active/a.sav".to_string(), is_file: true },
            ListedPath { path: "/active/sub".to_string(), is_file: false },
            ListedPath { path: "/active/sub/b.sav".to_string(), is_file: true },
        ],
    };
    assert!(matches!(m.on_event(BackupEvent::ActiveListing(Ok(listing))), BackupAction::ProbeDestination { .. }));
    let taken = match m.on_event(BackupEvent::DestinationExists(true)) {
        BackupAction::ProbeDestination { path } => {
            assert!(path.starts_with("/vault/Game/a_"));
            assert!(path.ends_with("_1.sav"));
            path
        }
        _ => panic!("expected the first numbered name"),
    };
    match m.on_event(BackupEvent::DestinationExists(false)) {
        BackupAction::CopyFile { from, to } => {
            assert_eq!(from, "/active/a.sav");
            assert_eq!(to, taken);
        }
        _ => panic!("expected the copy"),
    }
    m.on_event(BackupEvent::Copied(Ok(())));
    m.on_event(BackupEvent::PairMetadata(Ok((meta("abc"), meta("abc")))));
    match m.on_event(BackupEvent::RecordMetadata(Ok(meta("abc")))) {
        BackupAction::ProbeDestination { path } => assert_eq!(path, "/vault/Game/b.sav"),
        _ => panic!("expected the second file's name to be probed"),
    }
    match m.on_event(BackupEvent::DestinationExists(false)) {
        BackupAction::CopyFile { from, to } => {
            assert_eq!(from, "/active/sub/b.sav");
            assert_eq!(to, "/vault/Game/b.sav");
        }
        _ => panic!("expected the second copy"),
    }
    m.on_event(BackupEvent::Copied(Ok(())));
    m.on_event(BackupEvent::PairMetadata(Ok((meta("def"), meta("def")))));
    assert!(matches!(m.on_event(BackupEvent::RecordMetadata(Ok(meta("def")))), BackupAction::LoadAnnotations));
    m.on_event(BackupEvent::Annotations(Ok(AnnotationRegistry { entries: Vec::new() })));
    match m.outcome() {
        Some(Ok(records)) => {
            assert_eq!(records.len(), 2);
            assert_eq!(records[0].absolute_path, taken);
            assert_eq!(records[1].absolute_path, "/vault/Game/b.sav");
        }
        _ => panic!("backup should succeed"),
    }
}
