use slotforge::domain::conflict::{ResolutionChoice, SaveFreshness};
use slotforge::domain::save::{SaveMetadata, SaveOrigin, SaveRecord};
use slotforge::services::metadata_service::{
    collect_metadata, sha256_hex, verify_copy_integrity, verify_metadata_pair, FileFacts, IntegrityError,
};
use slotforge::services::config_service::{
    default_config, get_conflict_policy, set_conflict_policy, ConflictPolicy,
};
use slotforge::services::swap_service::{
    apply_resolution_choice, compare_for_swap, destructive_swap_warning, resolve_conflict_choice,
    sanitize_segment,
};
use slotforge::services::vault_service::compare_saves;
use slotforge::time::{now_utc, UtcTime, MAX_TIMESTAMP, MIN_TIMESTAMP};

fn minutes_before(t: &UtcTime, minutes: i64) -> UtcTime {
    UtcTime::from_timestamp(t.timestamp() - minutes * 60, t.subsec_nanos()).expect("valid instant")
}

fn build_save(id_suffix: &str, modified_at: UtcTime, sha: &str, dir: &str) -> SaveRecord {
    SaveRecord {
        id: format!("save-{id_suffix}"),
        game_id: "game-a".to_string(),
        file_name: format!("{id_suffix}.sav"),
        absolute_path: format!("{dir}{id_suffix}.sav"),
        origin: SaveOrigin::Vault,
        label: None,
        note: None,
        label_color: None,
        metadata: SaveMetadata {
            modified_at: Some(modified_at),
            created_at: Some(modified_at),
            byte_size: 512,
            sha256: Some(sha.to_string()),
        },
        archived_at: Some(modified_at),
    }
}

#[test]
fn destructive_warning_mentions_replace_when_active_exists() {
    let now = now_utc();
    let selected = build_save("selected", now, "aaa", "");
    let existing = build_save("existing", minutes_before(&now, 1), "bbb", "");
    let warning = destructive_swap_warning(&selected, Some(&existing));
    assert!(warning.contains("replace active save"));
}

#[test]
fn compare_for_swap_detects_destination_newer() {
    let now = now_utc();
    let source = build_save("source", minutes_before(&now, 5), "a1", "");
    let destination = build_save("dest", now, "b1", "");
    let comparison = compare_for_swap(&source, &destination);
    assert_eq!(comparison.freshness, SaveFreshness::DestinationNewer);
}

#[test]
fn apply_resolution_choice_cancels_when_requested() {
    let now = now_utc();
    let source = build_save("source", now, "h1", "");
    let destination = build_save("dest", minutes_before(&now, 1), "h2", "");
    let comparison = compare_for_swap(&source, &destination);
    let result = apply_resolution_choice(ResolutionChoice::CancelOperation, &comparison);
    assert!(result.is_err());
    if let Err(e) = result {
        assert_eq!(e.message(), "swap cancelled by user choice");
    }
}

#[test]
fn policy_prefer_newer_prompts_on_equal() {
    let mut config = default_config("/tmp/vault".to_string(), Vec::new());
    set_conflict_policy(&mut config, ConflictPolicy::PreferNewerWithPromptOnEqual);

    let now = now_utc();
    let source = build_save("source", now, "same", "");
    let destination = build_save("dest", minutes_before(&now, 4), "same", "");
    let comparison = compare_for_swap(&source, &destination);
    let choice = resolve_conflict_choice(None, &comparison, get_conflict_policy(&config));
    assert_eq!(choice, ResolutionChoice::CancelOperation);
}

#[test]
fn compare_saves_reports_source_newer() {
    let now = now_utc();
    let newer = build_save("src", now, "abc", "/tmp/");
    let older = build_save("dst", minutes_before(&now, 10), "def", "/tmp/");
    let comparison = compare_saves(&newer, &older);
    assert_eq!(comparison.freshness, SaveFreshness::SourceNewer);
    assert_eq!(comparison.reason, "source file has newer modification timestamp");
}

#[test]
fn compare_saves_reports_equal_on_matching_hash() {
    let now = now_utc();
    let left = build_save("left", now, "same", "/tmp/");
    let right = build_save("right", minutes_before(&now, 60), "same", "/tmp/");
    let comparison = compare_saves(&left, &right);
    assert_eq!(comparison.freshness, SaveFreshness::Equal);
}

#[test]
fn comparison_is_mirrored() {
    let now = now_utc();
    let a = build_save("a", now, "x", "/t/");
    let b = build_save("b", minutes_before(&now, 3), "y", "/t/");
    assert_eq!(compare_saves(&a, &b).freshness, SaveFreshness::SourceNewer);
    assert_eq!(compare_saves(&b, &a).freshness, SaveFreshness::DestinationNewer);
}

#[test]
fn sha256_of_known_input() {
    assert_eq!(
        sha256_hex(b"abc"),
        "ba7816bf8f01cfea414140de5dae2223b00361a396177a9cb410ff61f20015ad"
    );
}

#[test]
fn integrity_checks() {
    let a = collect_metadata(None, None, 3, b"abc");
    let b = collect_metadata(None, None, 3, b"abd");
    let c = collect_metadata(None, None, 4, b"abcd");
    assert!(verify_metadata_pair(&a, &a).is_ok());
    match verify_metadata_pair(&a, &b) {
        Err(e) => assert_eq!(e.message(), "integrity verification failed: hash mismatch"),
        Ok(()) => panic!("different content accepted"),
    }
    match verify_metadata_pair(&a, &c) {
        Err(e) => assert_eq!(e.message(), "integrity verification failed: byte size mismatch (src=3, dst=4)"),
        Ok(()) => panic!("different size accepted"),
    }
    let no_hash = SaveMetadata { modified_at: None, created_at: None, byte_size: 3, sha256: None };
    assert!(matches!(verify_metadata_pair(&a, &no_hash), Err(IntegrityError::MissingHash)));
    let src = FileFacts { modified_at: None, created_at: None, byte_size: 3, content: b"abc".to_vec() };
    let same = FileFacts { modified_at: None, created_at: None, byte_size: 3, content: b"abc".to_vec() };
    let other = FileFacts { modified_at: None, created_at: None, byte_size: 3, content: b"xyz".to_vec() };
    assert!(verify_copy_integrity(&src, &same).is_ok());
    assert!(matches!(verify_copy_integrity(&src, &other), Err(IntegrityError::HashMismatch)));
}

#[test]
fn sanitized_vault_folder_names() {
    assert_eq!(sanitize_segment("Cyberpunk: 2077!"), "Cyberpunk_ 2077_");
    assert_eq!(sanitize_segment("  "), "UnknownGame");
}

fn vault_delete(path: &str, phrase: Option<&str>) -> slotforge::services::vault_service::DeleteRequest {
    slotforge::services::vault_service::DeleteRequest {
        save_id: "save-1".to_string(),
        absolute_path: path.to_string(),
        target: slotforge::services::vault_service::DeleteTarget::Vault,
        confirmed: true,
        confirmation_phrase: phrase.map(|p| p.to_string()),
    }
}

fn existing_file() -> slotforge::platform::fs::PathProbe {
    slotforge::platform::fs::PathProbe { exists: true, is_dir: false, is_file: true }
}

#[test]
fn vault_delete_stays_inside_the_vault_root() {
    let config = default_config("/vault".to_string(), Vec::new());
    let ok = slotforge::services::vault_service::check_delete(&vault_delete("/Vault/Game/a.sav", Some(" DELETE ")), &config, existing_file());
    assert!(ok.is_ok());
    for outside in ["/vault2/a.sav", "/vault/../a.sav", "/other/a.sav"] {
        let r = slotforge::services::vault_service::check_delete(&vault_delete(outside, Some("DELETE")), &config, existing_file());
        match r {
            Err(e) => assert_eq!(e.message(), "refusing to delete: target is outside configured vault root (/vault)"),
            Ok(()) => panic!("delete outside the vault root was allowed: {outside}"),
        }
    }
}

#[test]
fn vault_delete_needs_the_phrase_and_a_file() {
    let config = default_config("/vault".to_string(), Vec::new());
    let r = slotforge::services::vault_service::check_delete(&vault_delete("/vault/a.sav", Some("delete")), &config, existing_file());
    assert_eq!(r.err().map(|e| e.message()), Some("delete blocked: confirmation phrase must be exactly DELETE".to_string()));
    let missing = slotforge::platform::fs::PathProbe { exists: false, is_dir: false, is_file: false };
    let r = slotforge::services::vault_service::check_delete(&vault_delete("/vault/a.sav", Some("DELETE")), &config, missing);
    assert_eq!(r.err().map(|e| e.message()), Some("cannot delete missing save at /vault/a.sav".to_string()));
}

#[test]
fn instants_follow_chronos_range_and_leap_second_rule() {
    assert!(UtcTime::from_timestamp(MIN_TIMESTAMP, 0).is_some());
    assert!(UtcTime::from_timestamp(MIN_TIMESTAMP - 1, 999_999_999).is_none());
    assert!(UtcTime::from_timestamp(MAX_TIMESTAMP, 999_999_999).is_some());
    assert!(UtcTime::from_timestamp(MAX_TIMESTAMP + 1, 0).is_none());
    assert!(UtcTime::from_timestamp(59, 1_500_000_000).is_some());
    assert!(UtcTime::from_timestamp(-1, 1_999_999_999).is_some());
    assert!(UtcTime::from_timestamp(58, 1_000_000_000).is_none());
    assert!(UtcTime::from_timestamp(59, 2_000_000_000).is_none());
    assert!(now_utc().timestamp() > 1_600_000_000);
}

#[test]
fn hex_text_writes_two_lowercase_digits_per_byte() {
    assert_eq!(slotforge::services::metadata_service::hex_text(&vec![0x00, 0x0f, 0xa5, 0xff]), "000fa5ff");
    assert_eq!(slotforge::services::metadata_service::hex_text(&Vec::new()), "");
}
