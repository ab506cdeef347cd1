//! The ignore list: save folders (and everything under them) that discovery and
//! the library leave out.

use vstd::prelude::*;

use crate::domain::game::GameRecord;
use crate::platform::fs::{
    comps, comps_prefix, file_name, file_name_of, normalize_path, normalized, path_key, resolve_path,
    resolved, same_path, starts_with_path, PathContext,
};
use crate::sorting::{apply_order, key_views, stable_order, stably_sorted, is_permutation};
use crate::text::{char_key, lowercase, owned, str_eq, text_key, trim, trimmed, unicode_lowercase};
use crate::time::{now_utc, UtcTime};

verus! {

/// An ignored folder, with the name shown for it and when it was ignored.
#[derive(Clone, Debug)]
pub struct IgnoredEntry {
    pub path: String,
    pub name: Option<String>,
    pub ignored_at: UtcTime,
}

#[derive(Clone, Debug)]
pub struct IgnoredRegistry {
    pub entries: Vec<IgnoredEntry>,
}

/// `paths_overlap`: after normalization, `candidate` is `ignored` or lies under
/// it (component-wise).
pub open spec fn overlaps(candidate: Seq<char>, ignored: Seq<char>) -> bool {
    let c = comps(normalized(candidate));
    let i = comps(normalized(ignored));
    c == i || comps_prefix(i, c)
}

/// True when `candidate` equals `ignored` or lies under it (prefix by path components).
pub fn paths_overlap(candidate: &str, ignored: &str) -> (r: bool)
    ensures
        r == overlaps(candidate@, ignored@),
{
    let c = normalize_path(candidate);
    let i = normalize_path(ignored);
    same_path(c.as_str(), i.as_str()) || starts_with_path(c.as_str(), i.as_str())
}

/// A path overlaps itself.
pub proof fn law_overlap_reflexive(p: Seq<char>)
    ensures
        overlaps(p, p),
{
}

/// Whatever lies under an ignored folder overlaps it: a path whose normalized
/// components extend the folder's normalized components.
pub proof fn law_overlap_children(child: Seq<char>, folder: Seq<char>)
    requires
        comps_prefix(comps(normalized(folder)), comps(normalized(child))),
    ensures
        overlaps(child, folder),
{
}

/// Why an ignore-list change was refused.
#[derive(Clone, Debug)]
pub enum IgnoreError {
    EmptyPath,
    NotFound,
}

impl IgnoreError {
    pub open spec fn text(self) -> Seq<char> {
        match self {
            IgnoreError::EmptyPath => "ignored path cannot be empty"@,
            IgnoreError::NotFound => "ignored path was not found"@,
        }
    }

    /// The message shown for this error.
    pub fn message(&self) -> (m: String)
        ensures
            m@ == self.text(),
    {
        match self {
            IgnoreError::EmptyPath => owned("ignored path cannot be empty"),
            IgnoreError::NotFound => owned("ignored path was not found"),
        }
    }
}

/// The name shown for an entry: its own name, else the folder's name, else the path.
pub open spec fn display_name(e: IgnoredEntry) -> Seq<char> {
    match e.name {
        Some(n) => n@,
        None => match file_name_of(e.path@) {
            Some(f) => f,
            None => e.path@,
        },
    }
}

fn display_name_exec(e: &IgnoredEntry) -> (r: String)
    ensures
        r@ == display_name(*e),
{
    match &e.name {
        Some(n) => n.clone(),
        None => match file_name(e.path.as_str()) {
            Some(f) => f,
            None => e.path.clone(),
        },
    }
}

/// The sort key of an entry: its lowercase display name.
pub open spec fn entry_key(e: IgnoredEntry) -> Seq<i128> {
    char_key(unicode_lowercase(display_name(e)))
}

fn clone_entry(e: &IgnoredEntry) -> (r: IgnoredEntry)
    ensures
        r == *e,
{
    IgnoredEntry { path: e.path.clone(), name: crate::text::clone_opt(&e.name), ignored_at: e.ignored_at }
}

/// `list_ignored`: the entries ordered by lowercase display name (stable).
pub fn list_ignored(registry: &IgnoredRegistry) -> (out: Vec<IgnoredEntry>)
    ensures
        exists|order: Seq<usize>|
            {
                &&& is_permutation(order, registry.entries@.len())
                &&& stably_sorted(
                    Seq::new(registry.entries@.len(), |i: int| entry_key(registry.entries@[i])),
                    order,
                    false,
                )
                &&& out@.len() == registry.entries@.len()
                &&& forall|i: int| 0 <= i < out@.len() ==> #[trigger] out@[i] == registry.entries@[order[i] as int]
            },
{
    let n = registry.entries.len();
    let mut keys: Vec<Vec<i128>> = Vec::new();
    let mut copies: Vec<IgnoredEntry> = Vec::new();
    for i in 0..n
        invariant
            n == registry.entries@.len(),
            keys@.len() == i,
            copies@.len() == i,
            forall|k: int| 0 <= k < i ==> #[trigger] keys@[k]@ == entry_key(registry.entries@[k]),
            forall|k: int| 0 <= k < i ==> #[trigger] copies@[k] == registry.entries@[k],
    {
        let name = display_name_exec(&registry.entries[i]);
        let lower = lowercase(name.as_str());
        keys.push(text_key(lower.as_str()));
        copies.push(clone_entry(&registry.entries[i]));
    }
    let order = stable_order(&keys, false);
    assert(key_views(keys@) =~= Seq::new(registry.entries@.len(), |i: int| entry_key(registry.entries@[i])));
    let out = apply_order(copies, &order);
    out
}

/// The first entry whose path has the key `key`, or -1.
pub open spec fn first_with_key(entries: Seq<IgnoredEntry>, key: Seq<char>) -> int
    decreases entries.len(),
{
    if entries.len() == 0 {
        -1
    } else if path_key(entries[0].path@) == key {
        0
    } else {
        let r = first_with_key(entries.drop_first(), key);
        if r < 0 {
            -1
        } else {
            r + 1
        }
    }
}

proof fn lemma_first_with_key(entries: Seq<IgnoredEntry>, key: Seq<char>)
    ensures
        -1 <= first_with_key(entries, key) < entries.len(),
        first_with_key(entries, key) >= 0 ==> path_key(entries[first_with_key(entries, key)].path@) == key,
        forall|k: int|
            0 <= k < entries.len() && (first_with_key(entries, key) < 0 || k < first_with_key(entries, key))
                ==> path_key(#[trigger] entries[k].path@) != key,
    decreases entries.len(),
{
    if entries.len() > 0 && path_key(entries[0].path@) != key {
        let rest = entries.drop_first();
        lemma_first_with_key(rest, key);
        assert forall|k: int|
            0 <= k < entries.len() && (first_with_key(entries, key) < 0 || k < first_with_key(entries, key))
            implies path_key(#[trigger] entries[k].path@) != key by {
            if k > 0 {
                assert(entries[k] == rest[k - 1]);
            }
        }
    }
}

fn path_key_exec(p: &str) -> (k: String)
    ensures
        k@ == path_key(p@),
{
    let n = normalize_path(p);
    lowercase(n.as_str())
}

fn find_key(entries: &Vec<IgnoredEntry>, key: &String) -> (r: Option<usize>)
    ensures
        r matches Some(i) ==> i == first_with_key(entries@, key@) && i < entries@.len(),
        r is None ==> first_with_key(entries@, key@) == -1,
{
    proof {
        lemma_first_with_key(entries@, key@);
    }
    let n = entries.len();
    for i in 0..n
        invariant
            n == entries@.len(),
            -1 <= first_with_key(entries@, key@) < n,
            first_with_key(entries@, key@) >= 0 ==> path_key(entries@[first_with_key(entries@, key@)].path@)
                == key@,
            forall|k: int|
                0 <= k < n && (first_with_key(entries@, key@) < 0 || k < first_with_key(entries@, key@))
                    ==> path_key(#[trigger] entries@[k].path@) != key@,
            forall|k: int| 0 <= k < i ==> path_key(#[trigger] entries@[k].path@) != key@,
    {
        let k = path_key_exec(entries[i].path.as_str());
        if str_eq(k.as_str(), key.as_str()) {
            return Some(i);
        }
    }
    None
}

/// A name as the ignore list keeps it: trimmed, absent when blank.
pub open spec fn cleaned_name(name: Option<String>) -> Option<Seq<char>> {
    match name {
        Some(n) => if trim(n@).len() == 0 {
            None
        } else {
            Some(trim(n@))
        },
        None => None,
    }
}

pub open spec fn opt_text(o: Option<String>) -> Option<Seq<char>> {
    match o {
        Some(s) => Some(s@),
        None => None,
    }
}

/// `add_ignored_path`: the trimmed path is resolved; an empty result is
/// refused. An entry with the same key (lowercase normalized path) is updated
/// (a given name replaces its name; it is re-stamped); otherwise a new entry is
/// appended. The entry as stored is returned.
pub fn add_ignored_path(registry: &mut IgnoredRegistry, raw_path: &str, name: Option<String>, ctx: &PathContext) -> (r: Result<IgnoredEntry, IgnoreError>)
    ensures
        ({
            let p = resolved(trim(raw_path@), *ctx);
            let key = path_key(p);
            let i = first_with_key(old(registry).entries@, key);
            if p.len() == 0 {
                &&& r matches Err(IgnoreError::EmptyPath)
                &&& final(registry).entries@ == old(registry).entries@
            } else if i >= 0 {
                &&& final(registry).entries@.len() == old(registry).entries@.len()
                &&& forall|k: int| 0 <= k < old(registry).entries@.len() && k != i
                    ==> #[trigger] final(registry).entries@[k] == old(registry).entries@[k]
                &&& final(registry).entries@[i].path == old(registry).entries@[i].path
                &&& opt_text(final(registry).entries@[i].name) == if cleaned_name(name) is Some {
                    cleaned_name(name)
                } else {
                    opt_text(old(registry).entries@[i].name)
                }
                &&& r == Ok::<IgnoredEntry, IgnoreError>(final(registry).entries@[i])
            } else {
                &&& final(registry).entries@.len() == old(registry).entries@.len() + 1
                &&& final(registry).entries@.drop_last() == old(registry).entries@
                &&& final(registry).entries@.last().path@ == normalized(p)
                &&& opt_text(final(registry).entries@.last().name) == cleaned_name(name)
                &&& r == Ok::<IgnoredEntry, IgnoreError>(final(registry).entries@.last())
            }
        }),
{
    let t = trimmed(raw_path);
    let path = resolve_path(t.as_str(), ctx);
    if path.as_str().is_empty() {
        return Err(IgnoreError::EmptyPath);
    }
    let normalized_path = normalize_path(path.as_str());
    let cleaned: Option<String> = match name {
        Some(n) => {
            let c = trimmed(n.as_str());
            if c.as_str().is_empty() {
                None
            } else {
                Some(c)
            }
        },
        None => None,
    };
    assert(opt_text(cleaned) == cleaned_name(name));
    let key = path_key_exec(normalized_path.as_str());
    proof {
        crate::platform::fs::lemma_normalized_idempotent(path@);
    }
    assert(key@ == path_key(path@));
    let now = now_utc();
    match find_key(&registry.entries, &key) {
        Some(i) => {
            let ghost before = registry.entries@;
            let existing = &registry.entries[i];
            let new_name = match cleaned {
                Some(c) => Some(c),
                None => crate::text::clone_opt(&existing.name),
            };
            let updated = IgnoredEntry { path: existing.path.clone(), name: new_name, ignored_at: now };
            let result = clone_entry(&updated);
            registry.entries.set(i, updated);
            assert forall|k: int| 0 <= k < before.len() && k != i implies #[trigger] registry.entries@[k]
                == before[k] by {}
            Ok(result)
        },
        None => {
            let ghost before = registry.entries@;
            let entry = IgnoredEntry { path: normalized_path, name: cleaned, ignored_at: now };
            let result = clone_entry(&entry);
            registry.entries.push(entry);
            assert(registry.entries@.drop_last() =~= before);
            Ok(result)
        },
    }
}

/// The entries whose key differs from `key`, in order.
pub open spec fn without_key(entries: Seq<IgnoredEntry>, key: Seq<char>) -> Seq<IgnoredEntry>
    decreases entries.len(),
{
    if entries.len() == 0 {
        Seq::empty()
    } else {
        let r = without_key(entries.drop_last(), key);
        if path_key(entries.last().path@) == key {
            r
        } else {
            r.push(entries.last())
        }
    }
}

/// After a removal no entry has the removed key, and every other entry stays,
/// in order.
pub proof fn law_removed_key_gone(entries: Seq<IgnoredEntry>, key: Seq<char>)
    ensures
        forall|k: int| 0 <= k < without_key(entries, key).len() ==> path_key((#[trigger] without_key(entries, key)[k]).path@) != key,
        forall|k: int| 0 <= k < without_key(entries, key).len() ==> entries.contains(#[trigger] without_key(entries, key)[k]),
        forall|m: int| 0 <= m < entries.len() && path_key(entries[m].path@) != key ==> without_key(entries, key).contains(#[trigger] entries[m]),
    decreases entries.len(),
{
    if entries.len() > 0 {
        let init = entries.drop_last();
        law_removed_key_gone(init, key);
        let r = without_key(init, key);
        let out = without_key(entries, key);
        assert forall|k: int| 0 <= k < out.len() implies path_key((#[trigger] out[k]).path@) != key by {
            if k < r.len() {
                assert(out[k] == r[k]);
            }
        }
        assert forall|k: int| 0 <= k < out.len() implies entries.contains(#[trigger] out[k]) by {
            if k < r.len() {
                assert(out[k] == r[k]);
                let m = choose|m: int| 0 <= m < init.len() && init[m] == r[k];
                assert(entries[m] == init[m]);
            } else {
                assert(entries[entries.len() - 1] == out[k]);
            }
        }
        assert forall|m: int| 0 <= m < entries.len() && path_key(entries[m].path@) != key implies out.contains(#[trigger] entries[m]) by {
            if m < init.len() {
                assert(entries[m] == init[m]);
                assert(r.contains(init[m]));
                let k = choose|k: int| 0 <= k < r.len() && r[k] == init[m];
                assert(out[k] == r[k]);
            } else {
                assert(out[out.len() - 1] == entries[m]);
            }
        }
    }
}

/// `remove_ignored_path`: drops every entry whose key is the key of the
/// resolved trimmed path; when none had it, the list is unchanged and the
/// removal is refused.
pub fn remove_ignored_path(registry: &mut IgnoredRegistry, raw_path: &str, ctx: &PathContext) -> (r: Result<(), IgnoreError>)
    ensures
        ({
            let key = path_key(resolved(trim(raw_path@), *ctx));
            let kept = without_key(old(registry).entries@, key);
            if kept.len() == old(registry).entries@.len() {
                r matches Err(IgnoreError::NotFound) && final(registry).entries@ == old(registry).entries@
            } else {
                r is Ok && final(registry).entries@ == kept
            }
        }),
{
    let t = trimmed(raw_path);
    let path = resolve_path(t.as_str(), ctx);
    let key = path_key_exec(path.as_str());
    let before_len = registry.entries.len();
    let mut entries: Vec<IgnoredEntry> = Vec::new();
    std::mem::swap(&mut entries, &mut registry.entries);
    let ghost all = entries@;
    let mut kept: Vec<IgnoredEntry> = Vec::new();
    let mut removed: Vec<IgnoredEntry> = Vec::new();
    let mut idx: usize = 0;
    for e in it: entries
        invariant
            before_len == all.len(),
            all == it.seq(),
            idx == it.index(),
            kept@ == without_key(all.take(idx as int), key@),
            kept@.len() + removed@.len() == idx,
            forall|k: int| 0 <= k < removed@.len() ==> exists|j: int| 0 <= j < idx && #[trigger] removed@[k] == all[j],
            removed@.len() == 0 ==> kept@ == all.take(idx as int),
    {
        assert(all.take(idx + 1).drop_last() =~= all.take(idx as int));
        assert(all.take(idx + 1).last() == e);
        let k = path_key_exec(e.path.as_str());
        if str_eq(k.as_str(), key.as_str()) {
            removed.push(e);
        } else {
            let ghost prev = kept@;
            kept.push(e);
            assert(removed@.len() == 0 ==> kept@ =~= all.take(idx + 1));
        }
        idx = idx + 1;
    }
    assert(all.take(before_len as int) =~= all);
    if kept.len() == before_len {
        registry.entries = kept;
        return Err(IgnoreError::NotFound);
    }
    registry.entries = kept;
    Ok(())
}

/// `ignore_game`: ignores the game's save folder under the game's name.
pub fn ignore_game(registry: &mut IgnoredRegistry, game: &GameRecord, ctx: &PathContext) -> (r: Result<IgnoredEntry, IgnoreError>)
    ensures
        ({
            let p = resolved(trim(game.active_save_dir@), *ctx);
            p.len() > 0 ==> r is Ok && exists|k: int|
                0 <= k < final(registry).entries@.len() && #[trigger] final(registry).entries@[k] == r->Ok_0
                    && path_key(r->Ok_0.path@) == path_key(p)
        }),
{
    let ghost before = registry.entries@;
    let r = add_ignored_path(registry, game.active_save_dir.as_str(), Some(game.name.clone()), ctx);
    proof {
        let p = resolved(trim(game.active_save_dir@), *ctx);
        lemma_first_with_key(before, path_key(p));
        crate::platform::fs::lemma_normalized_idempotent(p);
        let i = first_with_key(before, path_key(p));
        if p.len() > 0 {
            if i >= 0 {
                assert(registry.entries@[i] == r->Ok_0);
            } else {
                let last = registry.entries@.len() - 1;
                assert(registry.entries@[last] == r->Ok_0);
            }
        }
    }
    r
}

/// Some entry covers the path.
pub open spec fn ignored_by(entries: Seq<IgnoredEntry>, path: Seq<char>) -> bool {
    exists|k: int| 0 <= k < entries.len() && overlaps(path, #[trigger] entries[k].path@)
}

/// `is_path_ignored`: the path is an ignored folder or lies under one.
pub fn is_path_ignored(registry: &IgnoredRegistry, path: &str) -> (r: bool)
    ensures
        r == ignored_by(registry.entries@, path@),
{
    let normalized_path = normalize_path(path);
    proof {
        crate::platform::fs::lemma_normalized_idempotent(path@);
    }
    let n = registry.entries.len();
    for i in 0..n
        invariant
            n == registry.entries@.len(),
            normalized_path@ == normalized(path@),
            normalized(normalized(path@)) == normalized(path@),
            forall|k: int| 0 <= k < i ==> !overlaps(path@, #[trigger] registry.entries@[k].path@),
    {
        if paths_overlap(normalized_path.as_str(), registry.entries[i].path.as_str()) {
            return true;
        }
    }
    false
}

/// A game is ignored when its save folder, or its game folder, is covered.
pub open spec fn game_ignored(entries: Seq<IgnoredEntry>, g: GameRecord) -> bool {
    ignored_by(entries, g.active_save_dir@) || match g.game_root {
        Some(root) => ignored_by(entries, root@),
        None => false,
    }
}

/// The games that are not ignored, in order.
pub open spec fn unignored(entries: Seq<IgnoredEntry>, games: Seq<GameRecord>) -> Seq<GameRecord>
    decreases games.len(),
{
    if games.len() == 0 {
        Seq::empty()
    } else {
        let r = unignored(entries, games.drop_last());
        if game_ignored(entries, games.last()) {
            r
        } else {
            r.push(games.last())
        }
    }
}

/// No ignore-list entry covers `p` (is it or a folder above it).
pub open spec fn uncovered(entries: Seq<IgnoredEntry>, p: Seq<char>) -> bool {
    forall|k: int| 0 <= k < entries.len() ==> !overlaps(p, #[trigger] entries[k].path@)
}

/// Filtering keeps exactly the games that the ignore list leaves alone, in
/// order: a kept game has neither its save folder nor its game folder (when it
/// has one) covered by an entry, so a game whose game folder is on the list is
/// left out even when its save folder lies elsewhere; every kept game is one of
/// the given games; and every given game with neither folder covered is kept.
pub proof fn law_filter_leaves_out_ignored_folders(entries: Seq<IgnoredEntry>, games: Seq<GameRecord>)
    ensures
        forall|j: int|
            0 <= j < unignored(entries, games).len() ==> {
                &&& uncovered(entries, (#[trigger] unignored(entries, games)[j]).active_save_dir@)
                &&& (unignored(entries, games)[j].game_root matches Some(r) ==> uncovered(entries, r@))
                &&& games.contains(unignored(entries, games)[j])
            },
        forall|i: int|
            0 <= i < games.len() && uncovered(entries, (#[trigger] games[i]).active_save_dir@) && (games[i].game_root
                matches Some(r) ==> uncovered(entries, r@)) ==> unignored(entries, games).contains(games[i]),
    decreases games.len(),
{
    if games.len() > 0 {
        let init = games.drop_last();
        law_filter_leaves_out_ignored_folders(entries, init);
        let r = unignored(entries, init);
        let out = unignored(entries, games);
        let g = games.last();
        assert forall|j: int| 0 <= j < out.len() implies {
            &&& uncovered(entries, (#[trigger] out[j]).active_save_dir@)
            &&& (out[j].game_root matches Some(x) ==> uncovered(entries, x@))
            &&& games.contains(out[j])
        } by {
            if j < r.len() {
                assert(out[j] == r[j]);
                let m = choose|m: int| 0 <= m < init.len() && init[m] == r[j];
                assert(games[m] == init[m]);
            } else {
                assert(out[j] == g);
                assert(!game_ignored(entries, g));
                assert forall|k: int| 0 <= k < entries.len() implies !overlaps(g.active_save_dir@, #[trigger] entries[k].path@) by {
                    if overlaps(g.active_save_dir@, entries[k].path@) {
                        assert(ignored_by(entries, g.active_save_dir@));
                    }
                }
                if let Some(x) = g.game_root {
                    assert forall|k: int| 0 <= k < entries.len() implies !overlaps(x@, #[trigger] entries[k].path@) by {
                        if overlaps(x@, entries[k].path@) {
                            assert(ignored_by(entries, x@));
                        }
                    }
                }
                assert(games[games.len() - 1] == g);
            }
        }
        assert forall|i: int|
            0 <= i < games.len() && uncovered(entries, (#[trigger] games[i]).active_save_dir@) && (games[i].game_root
                matches Some(x) ==> uncovered(entries, x@)) implies out.contains(games[i]) by {
            if i < init.len() {
                assert(games[i] == init[i]);
                assert(r.contains(init[i]));
                let m = choose|m: int| 0 <= m < r.len() && r[m] == init[i];
                assert(out[m] == r[m]);
            } else {
                assert(games[i] == g);
                assert(!ignored_by(entries, g.active_save_dir@));
                if let Some(x) = g.game_root {
                    assert(!ignored_by(entries, x@));
                }
                assert(out[out.len() - 1] == g);
            }
        }
    }
}

/// `filter_games`: drops every game that the ignore list covers.
pub fn filter_games(registry: &IgnoredRegistry, games: Vec<GameRecord>) -> (out: Vec<GameRecord>)
    ensures
        out@ == unignored(registry.entries@, games@),
{
    let ghost all = games@;
    let n = games.len();
    let mut out: Vec<GameRecord> = Vec::new();
    let mut idx: usize = 0;
    for g in it: games
        invariant
            n == all.len(),
            all == it.seq(),
            idx == it.index(),
            out@ == unignored(registry.entries@, all.take(idx as int)),
    {
        assert(all.take(idx + 1).drop_last() =~= all.take(idx as int));
        assert(all.take(idx + 1).last() == g);
        let mut ignored = is_path_ignored(registry, g.active_save_dir.as_str());
        if !ignored {
            match &g.game_root {
                Some(root) => {
                    ignored = is_path_ignored(registry, root.as_str());
                },
                None => {},
            }
        }
        if !ignored {
            out.push(g);
        }
        idx = idx + 1;
    }
    assert(all.take(n as int) =~= all);
    out
}


/// A folder on the ignore list is ignored, and so is everything under it: when
/// an entry's path is the normalized form of `folder` (as `add_ignored_path`
/// stores a new entry), `folder` and every path below it are ignored.
pub proof fn law_added_folder_ignored(entries: Seq<IgnoredEntry>, k: int, folder: Seq<char>, child: Seq<char>)
    requires
        0 <= k < entries.len(),
        entries[k].path@ == normalized(folder),
        comps_prefix(comps(normalized(folder)), comps(normalized(child))),
    ensures
        ignored_by(entries, folder),
        ignored_by(entries, child),
{
    crate::platform::fs::lemma_normalized_idempotent(folder);
    assert(overlaps(folder, entries[k].path@));
    assert(overlaps(child, entries[k].path@));
}

} // verus!
