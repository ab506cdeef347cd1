//! Application configuration: vault root, scan locations, conflict policy and
//! safety options. Reading and writing the configuration file is the caller's.

use vstd::prelude::*;

use crate::platform::fs::{
    dedup_normalized, normalize_and_dedup_paths, resolve_path, resolved, string_views, PathContext,
};
use crate::text::{lowercase, str_eq, unicode_lowercase};

verus! {

#[derive(Clone, Copy, Debug, PartialEq, Eq, Structural)]
pub enum ConflictPolicy {
    PromptAlways,
    KeepBothByDefault,
    PreferNewerWithPromptOnEqual,
}

#[derive(Clone, Copy, Debug, PartialEq, Eq, Structural)]
pub struct SafetyOptions {
    pub require_confirmation_for_delete: bool,
    pub verify_hash_after_swap: bool,
    pub create_rollback_snapshots: bool,
}

#[derive(Clone, Debug)]
pub struct AppConfig {
    pub vault_root: String,
    pub scan_paths: Vec<String>,
    pub conflict_policy: ConflictPolicy,
    pub safety: SafetyOptions,
}

/// Why a configuration change was refused.
#[derive(Clone, Debug)]
pub enum ConfigError {
    EmptyVaultRoot,
}

impl ConfigError {
    /// The message shown for this error.
    pub fn message(&self) -> (m: String)
        ensures
            m@ == "vault root path cannot be empty"@,
    {
        crate::text::owned("vault root path cannot be empty")
    }
}

/// The configuration written on first start: the given default locations,
/// `PromptAlways`, and every safety option on.
pub fn default_config(vault_root: String, scan_paths: Vec<String>) -> (c: AppConfig)
    ensures
        c.vault_root == vault_root,
        c.scan_paths == scan_paths,
        c.conflict_policy == ConflictPolicy::PromptAlways,
        c.safety.require_confirmation_for_delete,
        c.safety.verify_hash_after_swap,
        c.safety.create_rollback_snapshots,
{
    AppConfig {
        vault_root,
        scan_paths,
        conflict_policy: ConflictPolicy::PromptAlways,
        safety: SafetyOptions {
            require_confirmation_for_delete: true,
            verify_hash_after_swap: true,
            create_rollback_snapshots: true,
        },
    }
}

/// `ensure_initialized`: the stored configuration when there is one; otherwise
/// the defaults, flagged to be written.
pub fn ensure_initialized(stored: Option<AppConfig>, defaults: AppConfig) -> (r: (AppConfig, bool))
    ensures
        match stored {
            Some(c) => r.0 == c && !r.1,
            None => r.0 == defaults && r.1,
        },
{
    match stored {
        Some(c) => (c, false),
        None => (defaults, true),
    }
}

/// `get_scan_paths`: the scan paths, normalized and de-duplicated (stored back
/// into the configuration).
pub fn get_scan_paths(config: &mut AppConfig) -> (r: Vec<String>)
    ensures
        string_views(final(config).scan_paths@) == dedup_normalized(string_views(old(config).scan_paths@)),
        r@ == final(config).scan_paths@,
        final(config).vault_root == old(config).vault_root,
        final(config).conflict_policy == old(config).conflict_policy,
        final(config).safety == old(config).safety,
{
    let mut paths: Vec<String> = Vec::new();
    std::mem::swap(&mut paths, &mut config.scan_paths);
    config.scan_paths = normalize_and_dedup_paths(paths);
    crate::text::clone_strings(&config.scan_paths)
}

/// `add_scan_path`: the resolved path joins the scan paths, which are then
/// normalized and de-duplicated.
pub fn add_scan_path(config: &mut AppConfig, raw_path: &str, ctx: &PathContext)
    ensures
        string_views(final(config).scan_paths@) == dedup_normalized(
            string_views(old(config).scan_paths@).push(resolved(raw_path@, *ctx)),
        ),
        final(config).vault_root == old(config).vault_root,
        final(config).conflict_policy == old(config).conflict_policy,
        final(config).safety == old(config).safety,
{
    let resolved_path = resolve_path(raw_path, ctx);
    let mut paths: Vec<String> = Vec::new();
    std::mem::swap(&mut paths, &mut config.scan_paths);
    let ghost before = string_views(paths@);
    paths.push(resolved_path);
    assert(string_views(paths@) =~= before.push(resolved(raw_path@, *ctx)));
    config.scan_paths = normalize_and_dedup_paths(paths);
}

/// The paths whose lowercase text differs from `key`, in order.
pub open spec fn without_key(paths: Seq<Seq<char>>, key: Seq<char>) -> Seq<Seq<char>>
    decreases paths.len(),
{
    if paths.len() == 0 {
        Seq::empty()
    } else {
        let r = without_key(paths.drop_last(), key);
        if unicode_lowercase(paths.last()) == key {
            r
        } else {
            r.push(paths.last())
        }
    }
}

proof fn lemma_without_key(paths: Seq<Seq<char>>, key: Seq<char>)
    ensures
        forall|k: int| 0 <= k < without_key(paths, key).len() ==> paths.contains(#[trigger] without_key(paths, key)[k]),
        forall|k: int| 0 <= k < without_key(paths, key).len() ==> unicode_lowercase(#[trigger] without_key(paths, key)[k]) != key,
    decreases paths.len(),
{
    if paths.len() > 0 {
        let init = paths.drop_last();
        lemma_without_key(init, key);
        let r = without_key(init, key);
        let out = without_key(paths, key);
        assert forall|k: int| 0 <= k < out.len() implies paths.contains(#[trigger] out[k]) by {
            if k < r.len() {
                assert(out[k] == r[k]);
                let m = choose|m: int| 0 <= m < init.len() && init[m] == r[k];
                assert(paths[m] == init[m]);
            } else {
                assert(paths[paths.len() - 1] == out[k]);
            }
        }
        assert forall|k: int| 0 <= k < out.len() implies unicode_lowercase(#[trigger] out[k]) != key by {
            if k < r.len() {
                assert(out[k] == r[k]);
            }
        }
    }
}

/// A removed scan location is gone: when the scan paths are normalized (as
/// `get_scan_paths` leaves them), none of the paths left after removing a key
/// has that lowercase text.
pub proof fn law_removed_scan_path_gone(paths: Seq<Seq<char>>, key: Seq<char>)
    requires
        forall|k: int| 0 <= k < paths.len() ==> crate::platform::fs::normalized(#[trigger] paths[k]) == paths[k],
    ensures
        forall|k: int|
            0 <= k < dedup_normalized(without_key(paths, key)).len() ==> unicode_lowercase(
                #[trigger] dedup_normalized(without_key(paths, key))[k],
            ) != key,
{
    let w = without_key(paths, key);
    lemma_without_key(paths, key);
    crate::platform::fs::law_dedup_paths(w);
    let d = dedup_normalized(w);
    assert forall|k: int| 0 <= k < d.len() implies unicode_lowercase(#[trigger] d[k]) != key by {
        let m = choose|m: int| 0 <= m < w.len() && #[trigger] d[k] == crate::platform::fs::normalized(w[m]);
        assert(paths.contains(w[m]));
        let j = choose|j: int| 0 <= j < paths.len() && paths[j] == w[m];
        assert(crate::platform::fs::normalized(paths[j]) == paths[j]);
    }
}

/// `remove_scan_path`: drops the scan paths whose lowercase text is the
/// lowercase resolved path, then normalizes and de-duplicates the rest.
pub fn remove_scan_path(config: &mut AppConfig, raw_path: &str, ctx: &PathContext)
    ensures
        string_views(final(config).scan_paths@) == dedup_normalized(
            without_key(string_views(old(config).scan_paths@), unicode_lowercase(resolved(raw_path@, *ctx))),
        ),
        final(config).vault_root == old(config).vault_root,
        final(config).conflict_policy == old(config).conflict_policy,
        final(config).safety == old(config).safety,
{
    let resolved_path = resolve_path(raw_path, ctx);
    let key = lowercase(resolved_path.as_str());
    let mut paths: Vec<String> = Vec::new();
    std::mem::swap(&mut paths, &mut config.scan_paths);
    let ghost all = string_views(paths@);
    let mut kept: Vec<String> = Vec::new();
    let n = paths.len();
    let mut idx: usize = 0;
    for p in it: paths
        invariant
            n == all.len(),
            all == string_views(it.seq()),
            it.seq().len() == n,
            idx == it.index(),
            string_views(kept@) == without_key(all.take(idx as int), key@),
    {
        assert(all.take(idx + 1).drop_last() =~= all.take(idx as int));
        assert(all.take(idx + 1).last() == p@);
        let lower = lowercase(p.as_str());
        if !str_eq(lower.as_str(), key.as_str()) {
            let ghost prev = string_views(kept@);
            kept.push(p);
            assert(string_views(kept@) =~= prev.push(all[idx as int]));
        }
        idx = idx + 1;
    }
    assert(all.take(n as int) =~= all);
    config.scan_paths = normalize_and_dedup_paths(kept);
}

/// `get_conflict_policy`.
pub fn get_conflict_policy(config: &AppConfig) -> (p: ConflictPolicy)
    ensures
        p == config.conflict_policy,
{
    config.conflict_policy
}

/// `set_conflict_policy`.
pub fn set_conflict_policy(config: &mut AppConfig, policy: ConflictPolicy)
    ensures
        final(config).conflict_policy == policy,
        final(config).vault_root == old(config).vault_root,
        final(config).scan_paths == old(config).scan_paths,
        final(config).safety == old(config).safety,
{
    config.conflict_policy = policy;
}

/// `get_vault_root`.
pub fn get_vault_root(config: &AppConfig) -> (r: String)
    ensures
        r@ == config.vault_root@,
{
    crate::text::owned(config.vault_root.as_str())
}

/// `set_vault_root`: the resolved path becomes the vault root; an empty
/// resolved path is refused and leaves the configuration unchanged.
pub fn set_vault_root(config: &mut AppConfig, raw_path: &str, ctx: &PathContext) -> (r: Result<(), ConfigError>)
    ensures
        r is Err <==> resolved(raw_path@, *ctx).len() == 0,
        r is Ok ==> final(config).vault_root@ == resolved(raw_path@, *ctx),
        r is Err ==> final(config).vault_root == old(config).vault_root,
        final(config).scan_paths == old(config).scan_paths,
        final(config).conflict_policy == old(config).conflict_policy,
        final(config).safety == old(config).safety,
{
    let resolved_path = resolve_path(raw_path, ctx);
    if resolved_path.as_str().is_empty() {
        return Err(ConfigError::EmptyVaultRoot);
    }
    config.vault_root = resolved_path;
    Ok(())
}

} // verus!
