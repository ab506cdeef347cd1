use slotforge::platform::fs::PathProbe;
use slotforge::platform::path_defaults::{default_scan_paths, default_vault_root, HostOs};
use slotforge::services::swap_service::{rollback_user_swap, RollbackError};
use slotforge::domain::save::{SaveMetadata, SaveOrigin, SaveRecord};
use slotforge::ui::screens::vault_screen::{compare_saves, inspect_save};
use slotforge::time::UtcTime;

fn file() -> PathProbe {
    PathProbe { exists: true, is_dir: false, is_file: true }
}

fn nothing() -> PathProbe {
    PathProbe { exists: false, is_dir: false, is_file: false }
}

#[test]
fn default_locations() {
    assert_eq!(default_vault_root(Some("/home/p/Documents")), "/home/p/Documents/SlotForge/Vault");
    assert_eq!(default_vault_root(None), "SlotForge/Vault");
    assert_eq!(
        default_scan_paths(Some("/home/p"), HostOs::Linux),
        vec![
            "/home/p/Saved Games".to_string(),
            "/home/p/Documents/My Games".to_string(),
            "/home/p/Documents/Saved Games".to_string(),
            "/home/p/.local/share".to_string(),
            "/home/p/.config".to_string(),
        ]
    );
    assert_eq!(default_scan_paths(Some("/Users/p"), HostOs::MacOs).len(), 4);
    assert_eq!(default_scan_paths(Some("C:/Users/p"), HostOs::Windows).len(), 3);
    assert!(default_scan_paths(None, HostOs::Linux).is_empty());
}

#[test]
fn rollback_plan_follows_the_file_system() {
    let plan = rollback_user_swap("/a/slot.sav", Some("/v/slot_1.sav"), file(), file());
    assert_eq!(plan.remove_active, Some("/a/slot.sav".to_string()));
    assert_eq!(plan.restore, Some(("/v/slot_1.sav".to_string(), "/a/slot.sav".to_string())));
    let plan = rollback_user_swap("/a/slot.sav", Some("/v/slot_1.sav"), nothing(), nothing());
    assert_eq!(plan.remove_active, None);
    assert_eq!(plan.restore, None);
    let plan = rollback_user_swap("/a/slot.sav", None, file(), file());
    assert_eq!(plan.restore, None);
    assert_eq!(
        RollbackError::RemoveFailed("/a/slot.sav".to_string()).message(),
        "rollback failed to remove partially swapped file /a/slot.sav"
    );
    assert_eq!(
        RollbackError::RestoreFailed { from: "/v/x".to_string(), to: "/a/x".to_string() }.message(),
        "rollback failed to restore staged backup /v/x back to /a/x"
    );
}

fn save(id: &str, secs: i64, sha: &str) -> SaveRecord {
    let t = UtcTime::from_timestamp(secs, 0).expect("valid");
    SaveRecord {
        id: id.to_string(),
        game_id: "g".to_string(),
        file_name: format!("{id}.sav"),
        absolute_path: format!("/vault/{id}.sav"),
        origin: SaveOrigin::Vault,
        label: None,
        note: None,
        label_color: None,
        metadata: SaveMetadata { modified_at: Some(t), created_at: None, byte_size: 1, sha256: Some(sha.to_string()) },
        archived_at: Some(t),
    }
}

#[test]
fn vault_screen_inspects_and_compares() {
    let saves = vec![save("a", 200, "x"), save("b", 100, "y")];
    assert_eq!(inspect_save(&saves, "b").ok().map(|s| s.id), Some("b".to_string()));
    match inspect_save(&saves, "zz") {
        Err(e) => assert_eq!(e.message(), "save 'zz' not found in vault"),
        Ok(_) => panic!("unknown save found"),
    }
    let c = compare_saves(&saves, "a", "b").ok().expect("both saves exist");
    assert_eq!(c.freshness, slotforge::domain::conflict::SaveFreshness::SourceNewer);
    assert!(compare_saves(&saves, "a", "nope").is_err());
}

#[test]
fn rollback_after_a_failed_copy_only_restores_the_staged_save() {
    // the copy into place failed: nothing is at the active path, the staged save is
    let nothing_there = slotforge::platform::fs::PathProbe { exists: false, is_dir: false, is_file: false };
    let staged_file = slotforge::platform::fs::PathProbe { exists: true, is_dir: false, is_file: true };
    let plan = rollback_user_swap("/a/slot.sav", Some("/v/Game/slot.sav"), nothing_there, staged_file);
    assert_eq!(plan.remove_active, None);
    assert_eq!(plan.restore, Some(("/v/Game/slot.sav".to_string(), "/a/slot.sav".to_string())));
}
