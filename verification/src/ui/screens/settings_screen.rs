//! The settings screen: scan locations, vault location and conflict policy.

use vstd::prelude::*;

use crate::platform::fs::{dedup_normalized, law_dedup_idempotent, resolved, string_views, PathContext};
use crate::services::config_service::{self, without_key, AppConfig, ConfigError, ConflictPolicy};
use crate::text::{owned, unicode_lowercase};

verus! {

/// The settings screen's title.
pub fn title() -> (t: &'static str)
    ensures
        t@ == "Settings"@,
{
    "Settings"
}

/// What the settings screen shows.
#[derive(Clone, Debug)]
pub struct SettingsScreenState {
    pub scan_paths: Vec<String>,
    pub vault_root: String,
    pub conflict_policy: ConflictPolicy,
    pub status_message: Option<String>,
    pub help_text: &'static str,
}

/// The settings screen's help line.
pub open spec fn settings_help() -> Seq<char> {
    "Changes are saved instantly. Keep conflict policy on Prompt Always for maximum safety."@
}

/// The screen shows `config`, with the given status line.
pub open spec fn shows(s: SettingsScreenState, config: AppConfig, status: Option<Seq<char>>) -> bool {
    &&& s.scan_paths@ == config.scan_paths@
    &&& s.vault_root@ == config.vault_root@
    &&& s.conflict_policy == config.conflict_policy
    &&& match s.status_message {
        Some(m) => status == Some(m@),
        None => status is None,
    }
    &&& s.help_text@ == settings_help()
}

/// The screen for the configuration, whose scan paths are normalized and
/// de-duplicated on the way (as `get_scan_paths` does).
pub fn load_state(config: &mut AppConfig) -> (s: SettingsScreenState)
    ensures
        string_views(final(config).scan_paths@) == dedup_normalized(string_views(old(config).scan_paths@)),
        final(config).vault_root == old(config).vault_root,
        final(config).conflict_policy == old(config).conflict_policy,
        final(config).safety == old(config).safety,
        shows(s, *final(config), None),
{
    let scan_paths = config_service::get_scan_paths(config);
    SettingsScreenState {
        scan_paths,
        vault_root: config_service::get_vault_root(config),
        conflict_policy: config_service::get_conflict_policy(config),
        status_message: None,
        help_text: "Changes are saved instantly. Keep conflict policy on Prompt Always for maximum safety.",
    }
}

/// The configured conflict policy.
pub fn current_conflict_policy(config: &AppConfig) -> (p: ConflictPolicy)
    ensures
        p == config.conflict_policy,
{
    config_service::get_conflict_policy(config)
}

/// Sets the conflict policy and gives the policy now in force.
pub fn update_conflict_policy(config: &mut AppConfig, policy: ConflictPolicy) -> (p: ConflictPolicy)
    ensures
        p == policy,
        final(config).conflict_policy == policy,
        final(config).vault_root == old(config).vault_root,
        final(config).scan_paths == old(config).scan_paths,
        final(config).safety == old(config).safety,
{
    config_service::set_conflict_policy(config, policy);
    config.conflict_policy
}

/// Adds a scan location and shows the settings with "Scan location added.".
pub fn add_scan_path(config: &mut AppConfig, path: &str, ctx: &PathContext) -> (s: SettingsScreenState)
    ensures
        string_views(final(config).scan_paths@) == dedup_normalized(
            string_views(old(config).scan_paths@).push(resolved(path@, *ctx)),
        ),
        final(config).vault_root == old(config).vault_root,
        final(config).conflict_policy == old(config).conflict_policy,
        final(config).safety == old(config).safety,
        shows(s, *final(config), Some("Scan location added."@)),
{
    config_service::add_scan_path(config, path, ctx);
    proof {
        law_dedup_idempotent(string_views(old(config).scan_paths@).push(resolved(path@, *ctx)));
    }
    let mut s = load_state(config);
    s.status_message = Some(owned("Scan location added."));
    s
}

/// Removes a scan location and shows the settings with "Scan location removed.".
pub fn remove_scan_path(config: &mut AppConfig, path: &str, ctx: &PathContext) -> (s: SettingsScreenState)
    ensures
        string_views(final(config).scan_paths@) == dedup_normalized(
            without_key(string_views(old(config).scan_paths@), unicode_lowercase(resolved(path@, *ctx))),
        ),
        final(config).vault_root == old(config).vault_root,
        final(config).conflict_policy == old(config).conflict_policy,
        final(config).safety == old(config).safety,
        shows(s, *final(config), Some("Scan location removed."@)),
{
    config_service::remove_scan_path(config, path, ctx);
    proof {
        law_dedup_idempotent(
            without_key(string_views(old(config).scan_paths@), unicode_lowercase(resolved(path@, *ctx))),
        );
    }
    let mut s = load_state(config);
    s.status_message = Some(owned("Scan location removed."));
    s
}

/// Moves the vault and shows the settings with "Vault location updated."; an
/// empty resolved path is refused and nothing changes.
pub fn update_vault_root(config: &mut AppConfig, path: &str, ctx: &PathContext) -> (r: Result<SettingsScreenState, ConfigError>)
    ensures
        r is Err <==> resolved(path@, *ctx).len() == 0,
        r is Err ==> *final(config) == *old(config),
        r is Ok ==> final(config).vault_root@ == resolved(path@, *ctx),
        r is Ok ==> string_views(final(config).scan_paths@) == dedup_normalized(string_views(old(config).scan_paths@)),
        final(config).conflict_policy == old(config).conflict_policy,
        final(config).safety == old(config).safety,
        r matches Ok(s) ==> shows(s, *final(config), Some("Vault location updated."@)),
{
    match config_service::set_vault_root(config, path, ctx) {
        Ok(()) => {},
        Err(e) => return Err(e),
    }
    let mut s = load_state(config);
    s.status_message = Some(owned("Vault location updated."));
    Ok(s)
}

} // verus!
