//! Discovery: finding game save folders under scan roots, and the save-like
//! files under a folder. The walking of directories is done by the caller,
//! which hands over what it saw.

use vstd::prelude::*;

use crate::domain::game::{GameRecord, GameSource};
use crate::platform::fs::{
    comps, dedup_normalized, file_name, file_name_of, extension_of, extension_of_name,
    normal_comps, normalize_and_dedup_paths, normalized, parent, parent_of, path_starts_with, same_path, starts_with_path,
    string_views, DirectoryListing, ListedPath, PathProbe,
};
use crate::services::blacklist_service::{ignored_by, is_path_ignored, opt_text, IgnoredRegistry};
use crate::sorting::{apply_order, is_permutation, key_lt, key_views, stable_order, stably_sorted};
use crate::text::{
    ascii_lower, ascii_lowercase, char_key, has_prefix, is_ascii_digit, lowercase, owned, starts_with,
    str_eq, text_key, trim, trimmed, unicode_lowercase,
};
use crate::time::{now_utc, rfc3339_text, to_rfc3339, UtcTime};

verus! {

/// A lowercase, trimmed folder name that names a save slot rather than a game.
pub open spec fn slot_name_lower(l: Seq<char>) -> bool {
    &&& l.len() > 0
    &&& {
        ||| l == "saves"@
        ||| l == "save"@
        ||| l == "savegames"@
        ||| l == "save games"@
        ||| starts_with(l, "autosave"@)
        ||| starts_with(l, "quicksave"@)
        ||| starts_with(l, "manualsave"@)
        ||| starts_with(l, "cloudsave"@)
        ||| starts_with(l, "savegame"@)
        ||| starts_with(l, "save_"@)
        ||| starts_with(l, "slot"@)
        ||| (l.len() >= 8 && forall|i: int| 0 <= i < l.len() ==> is_ascii_digit(#[trigger] l[i]))
    }
}

/// Folder names of per-slot save folders (`AutoSave-1`, `Quicksave`, Steam-style
/// numeric user folders, ...) that are not games of their own.
pub open spec fn is_slot_name(name: Seq<char>) -> bool {
    slot_name_lower(ascii_lower(trim(name)))
}

fn all_ascii_digits(s: &str) -> (r: bool)
    ensures
        r == forall|i: int| 0 <= i < s@.len() ==> is_ascii_digit(#[trigger] s@[i]),
{
    let cs = crate::text::chars_of(s);
    let n = cs.len();
    for i in 0..n
        invariant
            n == cs@.len(),
            cs@ == s@,
            forall|k: int| 0 <= k < i ==> is_ascii_digit(#[trigger] s@[k]),
    {
        if !(cs[i] >= '0' && cs[i] <= '9') {
            return false;
        }
    }
    true
}

/// Whether a folder name names a save slot rather than a game.
pub fn is_save_slot_directory_name(name: &str) -> (r: bool)
    ensures
        r == is_slot_name(name@),
{
    let t = trimmed(name);
    let lower = ascii_lowercase(t.as_str());
    let l = lower.as_str();
    if l.unicode_len() == 0 {
        return false;
    }
    if str_eq(l, "saves") || str_eq(l, "save") || str_eq(l, "savegames") || str_eq(l, "save games") {
        return true;
    }
    if has_prefix(l, "autosave") || has_prefix(l, "quicksave") || has_prefix(l, "manualsave")
        || has_prefix(l, "cloudsave") || has_prefix(l, "savegame") || has_prefix(l, "save_")
        || has_prefix(l, "slot") {
        return true;
    }
    all_ascii_digits(l) && l.unicode_len() >= 8
}

/// A lowercase file extension that marks a save file.
pub open spec fn save_ext_lower(e: Seq<char>) -> bool {
    ||| e == "sav"@
    ||| e == "save"@
    ||| e == "dat"@
    ||| e == "bak"@
    ||| e == "profile"@
    ||| e == "json"@
}

/// A path whose file name has a save extension (compared without ASCII case).
pub open spec fn save_like(p: Seq<char>) -> bool {
    match file_name_of(p) {
        Some(f) => match extension_of_name(f) {
            Some(e) => save_ext_lower(ascii_lower(e)),
            None => false,
        },
        None => false,
    }
}

/// A file is save-like exactly when its name has an extension that is, in
/// lowercase ASCII, one of `sav`, `save`, `dat`, `bak`, `profile` or `json`;
/// a path without a file name or without an extension is never save-like.
pub proof fn law_save_like_extensions(p: Seq<char>)
    ensures
        save_like(p) <==> (file_name_of(p) matches Some(f) && (extension_of_name(f) matches Some(e) && {
            let l = ascii_lower(e);
            ||| l == "sav"@
            ||| l == "save"@
            ||| l == "dat"@
            ||| l == "bak"@
            ||| l == "profile"@
            ||| l == "json"@
        })),
{
}

/// Whether the path's extension is one of `sav`, `save`, `dat`, `bak`,
/// `profile`, `json`, in any ASCII case.
pub fn is_save_like_extension(path: &str) -> (r: bool)
    ensures
        r == save_like(path@),
{
    let f = match file_name(path) {
        Some(f) => f,
        None => return false,
    };
    let e = match extension_of(f.as_str()) {
        Some(e) => e,
        None => return false,
    };
    let l = ascii_lowercase(e.as_str());
    let s = l.as_str();
    str_eq(s, "sav") || str_eq(s, "save") || str_eq(s, "dat") || str_eq(s, "bak") || str_eq(s, "profile")
        || str_eq(s, "json")
}

/// From a save's folder, the game folder: climbs while the folder's name is a
/// save slot name and its parent is a proper descendant of the scan root.
pub open spec fn canonical_root(dir: Seq<char>, root: Seq<char>) -> Seq<char>
    decreases comps(dir).len(),
{
    match file_name_of(dir) {
        None => dir,
        Some(name) => if !is_slot_name(name) {
            dir
        } else {
            match parent_of(dir) {
                None => dir,
                Some(p) => if comps(p) == comps(root) || !path_starts_with(p, root) {
                    dir
                } else {
                    proof {
                        crate::platform::fs::lemma_parent_comps(dir);
                    }
                    canonical_root(p, root)
                },
            }
        },
    }
}

/// Walks up from a save's folder to the game folder (e.g. `.../Cyberpunk 2077`,
/// not `.../Cyberpunk 2077/AutoSave-1`), staying strictly below `scan_root`.
pub fn canonical_game_root(dir: String, scan_root: &str) -> (r: String)
    ensures
        r@ == canonical_root(dir@, scan_root@),
{
    let mut dir = dir;
    let ghost target = canonical_root(dir@, scan_root@);
    loop
        invariant
            canonical_root(dir@, scan_root@) == target,
        ensures
            dir@ == target,
        decreases comps(dir@).len(),
    {
        let name = match file_name(dir.as_str()) {
            Some(n) => n,
            None => break,
        };
        if !is_save_slot_directory_name(name.as_str()) {
            break;
        }
        let p = match parent(dir.as_str()) {
            Some(p) => p,
            None => break,
        };
        if same_path(p.as_str(), scan_root) {
            break;
        }
        if !starts_with_path(p.as_str(), scan_root) {
            break;
        }
        proof {
            crate::platform::fs::lemma_parent_comps(dir@);
        }
        dir = p;
    }
    dir
}


/// Adds `p` unless a path with the same lowercase text is already kept.
pub open spec fn keep_first_lower(kept: Seq<Seq<char>>, p: Seq<char>) -> Seq<Seq<char>> {
    if exists|k: int| 0 <= k < kept.len() && unicode_lowercase(#[trigger] kept[k]) == unicode_lowercase(p) {
        kept
    } else {
        kept.push(p)
    }
}

/// The paths, keeping the first of those whose lowercase texts are equal.
pub open spec fn first_by_lower(paths: Seq<Seq<char>>) -> Seq<Seq<char>>
    decreases paths.len(),
{
    if paths.len() == 0 {
        Seq::empty()
    } else {
        keep_first_lower(first_by_lower(paths.drop_last()), paths.last())
    }
}

/// Keeping the first path per lowercase text leaves no two paths with the
/// same lowercase text, keeps only given paths, and keeps one for each given
/// path's lowercase text.
pub proof fn law_first_by_lower(paths: Seq<Seq<char>>)
    ensures
        forall|i: int, j: int|
            0 <= i < j < first_by_lower(paths).len() ==> unicode_lowercase(#[trigger] first_by_lower(paths)[i])
                != unicode_lowercase(#[trigger] first_by_lower(paths)[j]),
        forall|k: int| 0 <= k < first_by_lower(paths).len() ==> paths.contains(#[trigger] first_by_lower(paths)[k]),
        forall|m: int|
            #![trigger paths[m]]
            0 <= m < paths.len() ==> exists|k: int|
                0 <= k < first_by_lower(paths).len() && unicode_lowercase(#[trigger] first_by_lower(paths)[k])
                    == unicode_lowercase(paths[m]),
    decreases paths.len(),
{
    if paths.len() > 0 {
        let init = paths.drop_last();
        law_first_by_lower(init);
        let r = first_by_lower(init);
        let x = paths.last();
        let out = first_by_lower(paths);
        assert forall|k: int| 0 <= k < out.len() implies paths.contains(#[trigger] out[k]) by {
            if k < r.len() {
                assert(out[k] == r[k]);
                assert(init.contains(r[k]));
                let m = choose|m: int| 0 <= m < init.len() && init[m] == r[k];
                assert(paths[m] == init[m]);
            } else {
                assert(out[k] == x);
                assert(paths[paths.len() - 1] == x);
            }
        }
        assert forall|m: int| #![trigger paths[m]] 0 <= m < paths.len() implies exists|k: int|
            0 <= k < out.len() && unicode_lowercase(#[trigger] out[k]) == unicode_lowercase(paths[m]) by {
            if m < init.len() {
                assert(paths[m] == init[m]);
                let k = choose|k: int| 0 <= k < r.len() && unicode_lowercase(#[trigger] r[k]) == unicode_lowercase(init[m]);
                assert(out[k] == r[k]);
            } else {
                if exists|k: int| 0 <= k < r.len() && unicode_lowercase(#[trigger] r[k]) == unicode_lowercase(x) {
                    let k = choose|k: int| 0 <= k < r.len() && unicode_lowercase(#[trigger] r[k]) == unicode_lowercase(x);
                    assert(out[k] == r[k]);
                } else {
                    assert(out[r.len() as int] == x);
                }
            }
        }
    }
}

/// For each listed save file (in listing order), the game folder it belongs to.
pub open spec fn save_roots(root: Seq<char>, entries: Seq<ListedPath>) -> Seq<Seq<char>>
    decreases entries.len(),
{
    if entries.len() == 0 {
        Seq::empty()
    } else {
        let r = save_roots(root, entries.drop_last());
        let e = entries.last();
        if e.is_file && save_like(e.path@) {
            match parent_of(e.path@) {
                Some(p) => r.push(canonical_root(p, root)),
                None => r,
            }
        } else {
            r
        }
    }
}

/// The candidate game folders under a scan root: the game folders of the save
/// files, one per lowercase text, normalized and deduplicated.
pub open spec fn candidate_dirs(root: Seq<char>, entries: Seq<ListedPath>) -> Seq<Seq<char>> {
    dedup_normalized(first_by_lower(save_roots(root, entries)))
}

/// Appends `p` to `kept` unless its lowercase text is among `keys`, the
/// lowercase texts of `kept`.
fn keep_first(kept: &mut Vec<String>, keys: &mut Vec<String>, p: String)
    requires
        old(keys)@.len() == old(kept)@.len(),
        forall|k: int| 0 <= k < old(keys)@.len() ==> #[trigger] old(keys)@[k]@ == unicode_lowercase(old(kept)@[k]@),
    ensures
        final(keys)@.len() == final(kept)@.len(),
        forall|k: int| 0 <= k < final(keys)@.len() ==> #[trigger] final(keys)@[k]@ == unicode_lowercase(final(kept)@[k]@),
        string_views(final(kept)@) == keep_first_lower(string_views(old(kept)@), p@),
{
    let key = lowercase(p.as_str());
    let ghost before = string_views(kept@);
    let mut seen = false;
    let n = keys.len();
    for j in 0..n
        invariant
            n == keys@.len(),
            keys@.len() == kept@.len(),
            before == string_views(kept@),
            forall|k: int| 0 <= k < keys@.len() ==> #[trigger] keys@[k]@ == unicode_lowercase(kept@[k]@),
            seen == exists|k: int| 0 <= k < j && unicode_lowercase(#[trigger] before[k]) == key@,
    {
        let same = str_eq(keys[j].as_str(), key.as_str());
        assert(keys@[j as int]@ == unicode_lowercase(before[j as int]));
        if same {
            seen = true;
        }
        assert(seen == exists|k: int| 0 <= k < j + 1 && unicode_lowercase(#[trigger] before[k]) == key@) by {
            if seen && !same {
                let k = choose|k: int| 0 <= k < j && unicode_lowercase(#[trigger] before[k]) == key@;
                assert(0 <= k < j + 1);
            }
        }
    }
    if !seen {
        kept.push(p);
        keys.push(key);
        assert(string_views(kept@) =~= before.push(p@));
    }
}

/// The candidate game folders under `root`, from what walking it listed: for
/// each save-like file, the game folder above it (see `canonical_game_root`),
/// the first of those with equal lowercase text kept, then normalized and
/// deduplicated. (The folders are kept in the order they were first met.)
pub fn collect_candidate_game_dirs(root: &str, entries: &Vec<ListedPath>) -> (out: Vec<String>)
    ensures
        string_views(out@) == candidate_dirs(root@, entries@),
{
    let mut kept: Vec<String> = Vec::new();
    let mut keys: Vec<String> = Vec::new();
    let n = entries.len();
    for i in 0..n
        invariant
            n == entries@.len(),
            keys@.len() == kept@.len(),
            forall|k: int| 0 <= k < keys@.len() ==> #[trigger] keys@[k]@ == unicode_lowercase(kept@[k]@),
            string_views(kept@) == first_by_lower(save_roots(root@, entries@.take(i as int))),
    {
        let ghost prefix = entries@.take(i as int);
        assert(entries@.take(i + 1).drop_last() =~= prefix);
        assert(entries@.take(i + 1).last() == entries@[i as int]);
        let e = &entries[i];
        if e.is_file && is_save_like_extension(e.path.as_str()) {
            match parent(e.path.as_str()) {
                Some(p) => {
                    let game_root = canonical_game_root(p, root);
                    let ghost prev = save_roots(root@, prefix);
                    assert(save_roots(root@, entries@.take(i + 1)) == prev.push(game_root@));
                    assert(prev.push(game_root@).drop_last() =~= prev);
                    keep_first(&mut kept, &mut keys, game_root);
                },
                None => {},
            }
        }
    }
    assert(entries@.take(n as int) =~= entries@);
    normalize_and_dedup_paths(kept)
}

/// The name a game folder is listed under: its trimmed folder name, when not blank.
pub open spec fn dir_game_name(p: Seq<char>) -> Option<Seq<char>> {
    match file_name_of(p) {
        Some(n) => if trim(n).len() > 0 {
            Some(trim(n))
        } else {
            None
        },
        None => None,
    }
}

/// `r` is the record discovery makes for the folder `p` (its instants aside,
/// which are one and the same).
pub open spec fn record_for_dir(r: GameRecord, p: Seq<char>) -> bool {
    &&& dir_game_name(p) == Some(r.name@)
    &&& r.id@ == "auto:"@ + unicode_lowercase(p)
    &&& opt_text(r.game_root) == parent_of(p)
    &&& r.active_save_dir@ == p
    &&& r.source == GameSource::AutoDiscovered
    &&& r.tags@.len() == 1
    &&& r.tags@[0]@ == "auto-discovered"@
    &&& r.created_at == r.updated_at
}

/// The record for a discovered game folder, stamped `now`; none when the folder
/// has no name or a blank one.
pub fn game_record_at(path: &str, now: UtcTime) -> (r: Option<GameRecord>)
    ensures
        r is Some <==> dir_game_name(path@) is Some,
        r matches Some(g) ==> record_for_dir(g, path@) && g.created_at == now,
{
    let name = match file_name(path) {
        Some(n) => trimmed(n.as_str()),
        None => return None,
    };
    if name.unicode_len() == 0 {
        return None;
    }
    let lower = lowercase(path);
    let id = crate::text::concat2("auto:", lower.as_str());
    let mut tags: Vec<String> = Vec::new();
    tags.push(owned("auto-discovered"));
    Some(GameRecord {
        id,
        name,
        game_root: parent(path),
        active_save_dir: owned(path),
        source: GameSource::AutoDiscovered,
        tags,
        created_at: now,
        updated_at: now,
    })
}

/// The record for a discovered game folder, stamped with the current time.
pub fn game_record_from_dir(path: &str) -> (r: Option<GameRecord>)
    ensures
        r is Some <==> dir_game_name(path@) is Some,
        r matches Some(g) ==> record_for_dir(g, path@),
{
    let now = now_utc();
    game_record_at(path, now)
}


/// One scan root and what walking it reported.
#[derive(Clone, Debug)]
pub struct RootScan {
    pub root: String,
    pub listing: DirectoryListing,
}

/// What a discovery run scanned and found.
#[derive(Clone, Debug)]
pub struct DiscoverySummary {
    pub scanned_roots: Vec<String>,
    pub discovered_games: Vec<GameRecord>,
}

/// The candidate folders that survive the ignore list and have a name.
pub open spec fn kept_dirs(ds: Seq<Seq<char>>, ignored: Seq<crate::services::blacklist_service::IgnoredEntry>) -> Seq<Seq<char>>
    decreases ds.len(),
{
    if ds.len() == 0 {
        Seq::empty()
    } else {
        let r = kept_dirs(ds.drop_last(), ignored);
        let d = ds.last();
        if !ignored_by(ignored, d) && dir_game_name(d) is Some {
            r.push(d)
        } else {
            r
        }
    }
}

/// The game folders one scan contributes: none when its root is missing, not a
/// directory or ignored.
pub open spec fn scan_dirs(s: RootScan, ignored: Seq<crate::services::blacklist_service::IgnoredEntry>) -> Seq<Seq<char>> {
    if s.listing.root.exists && s.listing.root.is_dir && !ignored_by(ignored, s.root@) {
        kept_dirs(candidate_dirs(s.root@, s.listing.entries@), ignored)
    } else {
        Seq::empty()
    }
}

/// The game folders of all scans, in scan order.
pub open spec fn all_scan_dirs(scans: Seq<RootScan>, ignored: Seq<crate::services::blacklist_service::IgnoredEntry>) -> Seq<Seq<char>>
    decreases scans.len(),
{
    if scans.len() == 0 {
        Seq::empty()
    } else {
        all_scan_dirs(scans.drop_last(), ignored) + scan_dirs(scans.last(), ignored)
    }
}

/// The discovered game folders: one per record id (that is, per lowercase
/// folder text), the first found.
pub open spec fn discovered_dirs(scans: Seq<RootScan>, ignored: Seq<crate::services::blacklist_service::IgnoredEntry>) -> Seq<Seq<char>> {
    first_by_lower(all_scan_dirs(scans, ignored))
}

/// The order in which discovered games are listed: by lowercase name.
pub open spec fn game_name_key(g: GameRecord) -> Seq<i128> {
    char_key(unicode_lowercase(g.name@))
}

pub open spec fn save_dirs(records: Seq<GameRecord>) -> Seq<Seq<char>> {
    Seq::new(records.len(), |i: int| records[i].active_save_dir@)
}

/// Adds the records of one scan's candidate folders to those found so far,
/// which are the folders of `prior`, one per lowercase text.
fn add_scan_records(
    registry: &IgnoredRegistry,
    cands: &Vec<String>,
    keys: &mut Vec<String>,
    records: &mut Vec<GameRecord>,
    Ghost(prior): Ghost<Seq<Seq<char>>>,
)
    requires
        old(keys)@.len() == old(records)@.len(),
        forall|k: int| 0 <= k < old(keys)@.len() ==> #[trigger] old(keys)@[k]@ == unicode_lowercase(old(records)@[k].active_save_dir@),
        forall|k: int| 0 <= k < old(records)@.len() ==> record_for_dir(#[trigger] old(records)@[k], old(records)@[k].active_save_dir@),
        save_dirs(old(records)@) == first_by_lower(prior),
    ensures
        final(keys)@.len() == final(records)@.len(),
        forall|k: int| 0 <= k < final(keys)@.len() ==> #[trigger] final(keys)@[k]@ == unicode_lowercase(final(records)@[k].active_save_dir@),
        forall|k: int| 0 <= k < final(records)@.len() ==> record_for_dir(#[trigger] final(records)@[k], final(records)@[k].active_save_dir@),
        save_dirs(final(records)@) == first_by_lower(prior + kept_dirs(string_views(cands@), registry.entries@)),
{
    let ghost cs = string_views(cands@);
    let n = cands.len();
    assert(prior + kept_dirs(cs.take(0), registry.entries@) =~= prior);
    for j in 0..n
        invariant
            n == cands@.len(),
            cs == string_views(cands@),
            keys@.len() == records@.len(),
            forall|k: int| 0 <= k < keys@.len() ==> #[trigger] keys@[k]@ == unicode_lowercase(records@[k].active_save_dir@),
            forall|k: int| 0 <= k < records@.len() ==> record_for_dir(#[trigger] records@[k], records@[k].active_save_dir@),
            save_dirs(records@) == first_by_lower(prior + kept_dirs(cs.take(j as int), registry.entries@)),
    {
        let ghost kd = kept_dirs(cs.take(j as int), registry.entries@);
        assert(cs.take(j + 1).drop_last() =~= cs.take(j as int));
        assert(cs.take(j + 1).last() == cands@[j as int]@);
        let d = cands[j].as_str();
        let ghost dv = d@;
        proof {
            assert((prior + kd.push(dv)).drop_last() =~= prior + kd);
            assert((prior + kd.push(dv)).last() == dv);
        }
        if !is_path_ignored(registry, d) {
            match game_record_from_dir(d) {
                Some(rec) => {
                    if !is_path_ignored(registry, rec.active_save_dir.as_str()) {
                        let key = lowercase(d);
                        let ghost before = save_dirs(records@);
                        let mut seen = false;
                        let m = keys.len();
                        for t in 0..m
                            invariant
                                m == keys@.len(),
                                keys@.len() == records@.len(),
                                before == save_dirs(records@),
                                forall|k: int| 0 <= k < keys@.len() ==> #[trigger] keys@[k]@ == unicode_lowercase(records@[k].active_save_dir@),
                                seen == exists|k: int| 0 <= k < t && unicode_lowercase(#[trigger] before[k]) == key@,
                        {
                            let same = str_eq(keys[t].as_str(), key.as_str());
                            assert(keys@[t as int]@ == unicode_lowercase(before[t as int]));
                            if same {
                                seen = true;
                            }
                            assert(seen == exists|k: int| 0 <= k < t + 1 && unicode_lowercase(#[trigger] before[k]) == key@) by {
                                if seen && !same {
                                    let k = choose|k: int| 0 <= k < t && unicode_lowercase(#[trigger] before[k]) == key@;
                                    assert(0 <= k < t + 1);
                                }
                            }
                        }
                        if !seen {
                            records.push(rec);
                            keys.push(key);
                            assert(save_dirs(records@) =~= before.push(dv));
                        }
                    }
                },
                None => {},
            }
        }
    }
    assert(cs.take(n as int) =~= cs);
}

/// `r` is what discovery over `scans` finds: the scanned roots are the scans'
/// roots; the games are the records of the discovered folders, listed by
/// lowercase name.
pub open spec fn discovery_of(
    r: DiscoverySummary,
    scans: Seq<RootScan>,
    ignored: Seq<crate::services::blacklist_service::IgnoredEntry>,
) -> bool {
    &&& string_views(r.scanned_roots@) == Seq::new(scans.len(), |i: int| scans[i].root@)
    &&& r.discovered_games@.len() == discovered_dirs(scans, ignored).len()
    &&& exists|order: Seq<usize>|
        {
            &&& is_permutation(order, r.discovered_games@.len())
            &&& forall|i: int|
                0 <= i < r.discovered_games@.len() ==> record_for_dir(
                    #[trigger] r.discovered_games@[i],
                    discovered_dirs(scans, ignored)[order[i] as int],
                )
        }
    &&& forall|i: int, j: int|
        0 <= i < j < r.discovered_games@.len() ==> !key_lt(
            game_name_key(#[trigger] r.discovered_games@[j]),
            game_name_key(#[trigger] r.discovered_games@[i]),
        )
}

/// The roots one discovery run scans: the configured (or default) roots,
/// normalized, one per lowercase text, in order.
pub struct DiscoveryPlan {
    roots: Vec<String>,
}

impl DiscoveryPlan {
    pub closed spec fn roots_of(self) -> Seq<Seq<char>> {
        string_views(self.roots@)
    }

    /// The plan for `roots`: `normalize_and_dedup_paths` of them.
    pub fn new(roots: Vec<String>) -> (p: DiscoveryPlan)
        ensures
            p.roots_of() == dedup_normalized(string_views(roots@)),
    {
        DiscoveryPlan { roots: normalize_and_dedup_paths(roots) }
    }

    /// The roots to walk, in order.
    pub fn roots(&self) -> (r: &Vec<String>)
        ensures
            string_views(r@) == self.roots_of(),
    {
        &self.roots
    }

    /// Discovery over the plan's roots, `listings[i]` being what walking root
    /// `i` reported.
    pub fn discover(&self, listings: Vec<DirectoryListing>, registry: &IgnoredRegistry) -> (r: DiscoverySummary)
        requires
            listings@.len() == self.roots_of().len(),
        ensures
            exists|scans: Seq<RootScan>|
                {
                    &&& scans.len() == listings@.len()
                    &&& forall|i: int|
                        0 <= i < scans.len() ==> (#[trigger] scans[i]).root@ == self.roots_of()[i]
                            && scans[i].listing == listings@[i]
                    &&& discovery_of(r, scans, registry.entries@)
                },
    {
        let mut scans: Vec<RootScan> = Vec::new();
        let n = listings.len();
        let ghost all = listings@;
        let mut rest = listings;
        let mut i: usize = 0;
        while i < n
            invariant
                i <= n,
                n == all.len(),
                n == self.roots@.len(),
                rest@ == all.subrange(i as int, n as int),
                scans@.len() == i,
                forall|k: int|
                    0 <= k < i ==> (#[trigger] scans@[k]).root@ == self.roots@[k]@ && scans@[k].listing == all[k],
            decreases n - i,
        {
            let l = rest.remove(0);
            assert(l == all[i as int]);
            assert(rest@ =~= all.subrange(i + 1, n as int));
            scans.push(RootScan { root: self.roots[i].clone(), listing: l });
            i = i + 1;
        }
        let r = discover_games_from_roots(&scans, registry);
        assert forall|i: int| 0 <= i < scans@.len() implies (#[trigger] scans@[i]).root@ == self.roots_of()[i]
            && scans@[i].listing == all[i] by {}
        r
    }
}

/// Discovery over scanned roots (normally `normalize_and_dedup_paths` of the
/// configured roots, each walked to depth 5): every root that exists, is a
/// directory and is not ignored contributes its candidate game folders that
/// are not ignored and have a name; each becomes a record (the first one per
/// lowercase folder text wins), and the records are listed by lowercase name.
pub fn discover_games_from_roots(scans: &Vec<RootScan>, registry: &IgnoredRegistry) -> (r: DiscoverySummary)
    ensures
        discovery_of(r, scans@, registry.entries@),
{
    let mut roots: Vec<String> = Vec::new();
    let mut keys: Vec<String> = Vec::new();
    let mut records: Vec<GameRecord> = Vec::new();
    let n = scans.len();
    for i in 0..n
        invariant
            n == scans@.len(),
            roots@.len() == i,
            forall|q: int| 0 <= q < i ==> #[trigger] roots@[q]@ == scans@[q].root@,
            keys@.len() == records@.len(),
            forall|k: int| 0 <= k < keys@.len() ==> #[trigger] keys@[k]@ == unicode_lowercase(records@[k].active_save_dir@),
            forall|k: int| 0 <= k < records@.len() ==> record_for_dir(#[trigger] records@[k], records@[k].active_save_dir@),
            save_dirs(records@) == first_by_lower(all_scan_dirs(scans@.take(i as int), registry.entries@)),
    {
        let scan = &scans[i];
        let ghost prior = all_scan_dirs(scans@.take(i as int), registry.entries@);
        assert(scans@.take(i + 1).drop_last() =~= scans@.take(i as int));
        assert(scans@.take(i + 1).last() == scans@[i as int]);
        let ghost prev_roots = roots@;
        let root_copy = scan.root.clone();
        assert(root_copy@ == scans@[i as int].root@);
        roots.push(root_copy);
        assert(roots@ == prev_roots.push(root_copy));
        let probe = scan.listing.root;
        if probe.exists && probe.is_dir && !is_path_ignored(registry, scan.root.as_str()) {
            let cands = collect_candidate_game_dirs(scan.root.as_str(), &scan.listing.entries);
            add_scan_records(registry, &cands, &mut keys, &mut records, Ghost(prior));
        } else {
            assert(prior + Seq::<Seq<char>>::empty() =~= prior);
        }
    }
    assert(scans@.take(n as int) =~= scans@);
    assert(string_views(roots@) =~= Seq::new(scans@.len(), |i: int| scans@[i].root@));
    let ghost dirs = save_dirs(records@);
    let m = records.len();
    let mut name_keys: Vec<Vec<i128>> = Vec::new();
    for k in 0..m
        invariant
            m == records@.len(),
            name_keys@.len() == k,
            forall|q: int| 0 <= q < k ==> #[trigger] name_keys@[q]@ == game_name_key(records@[q]),
    {
        let lower = lowercase(records[k].name.as_str());
        name_keys.push(text_key(lower.as_str()));
    }
    let order = stable_order(&name_keys, false);
    let ghost ks = key_views(name_keys@);
    let ghost recs = records@;
    let games = apply_order(records, &order);
    proof {
        assert forall|i: int| 0 <= i < games@.len() implies record_for_dir(
            #[trigger] games@[i],
            dirs[order@[i] as int],
        ) by {
            assert(games@[i] == recs[order@[i] as int]);
        }
        assert forall|i: int, j: int| 0 <= i < j < games@.len() implies !key_lt(
            game_name_key(#[trigger] games@[j]),
            game_name_key(#[trigger] games@[i]),
        ) by {
            assert(games@[i] == recs[order@[i] as int]);
            assert(games@[j] == recs[order@[j] as int]);
            assert(ks[order@[i] as int] == game_name_key(recs[order@[i] as int]));
            assert(ks[order@[j] as int] == game_name_key(recs[order@[j] as int]));
        }
    }
    let r = DiscoverySummary { scanned_roots: roots, discovered_games: games };
    assert(is_permutation(order@, r.discovered_games@.len()) && forall|i: int|
        0 <= i < r.discovered_games@.len() ==> record_for_dir(
            #[trigger] r.discovered_games@[i],
            discovered_dirs(scans@, registry.entries@)[order@[i] as int],
        ));
    r
}


/// A save-like file found under a folder chosen by the user.
#[derive(Clone, Debug)]
pub struct DiscoveredSaveFile {
    pub name: String,
    pub absolute_path: String,
    pub relative_path: String,
    pub size: u64,
    pub modified_at: String,
}

/// What the file system reports of one save-like file: its size and, when the
/// platform gives it, its modification time.
#[derive(Clone, Debug)]
pub struct SaveFileFacts {
    pub path: String,
    pub size: u64,
    pub modified_at: Option<UtcTime>,
}

/// The listed files that are save-like, in listing order.
pub open spec fn save_files_of(entries: Seq<ListedPath>) -> Seq<Seq<char>>
    decreases entries.len(),
{
    if entries.len() == 0 {
        Seq::empty()
    } else {
        let r = save_files_of(entries.drop_last());
        let e = entries.last();
        if e.is_file && save_like(e.path@) {
            r.push(e.path@)
        } else {
            r
        }
    }
}

/// The save-like files among the listed paths (the ones whose facts
/// `scan_save_files_in_directory` needs), in listing order.
pub fn save_file_paths(entries: &Vec<ListedPath>) -> (out: Vec<String>)
    ensures
        string_views(out@) == save_files_of(entries@),
{
    let mut out: Vec<String> = Vec::new();
    let n = entries.len();
    for i in 0..n
        invariant
            n == entries@.len(),
            string_views(out@) == save_files_of(entries@.take(i as int)),
    {
        assert(entries@.take(i + 1).drop_last() =~= entries@.take(i as int));
        assert(entries@.take(i + 1).last() == entries@[i as int]);
        if entries[i].is_file && is_save_like_extension(entries[i].path.as_str()) {
            let ghost prev = string_views(out@);
            let copy = entries[i].path.clone();
            out.push(copy);
            assert(string_views(out@) =~= prev.push(entries@[i as int].path@));
        }
    }
    assert(entries@.take(n as int) =~= entries@);
    out
}

/// Backslashes written as forward slashes.
pub open spec fn forward_slashes(t: Seq<char>) -> Seq<char> {
    Seq::new(t.len(), |i: int| if t[i] == '\\' { '/' } else { t[i] })
}

/// The path of a found file relative to the folder searched, with forward
/// slashes; its file name when it does not lie under the folder.
pub open spec fn relative_text(path: Seq<char>, root: Seq<char>) -> Seq<char> {
    match crate::platform::fs::strip_prefix_text(path, root) {
        Some(t) => forward_slashes(t),
        None => match file_name_of(path) {
            Some(f) => f,
            None => Seq::empty(),
        },
    }
}

/// `out` describes the file `f` found under `root`; when the platform gave no
/// modification time, the text is that of some instant (the time of the scan).
pub open spec fn describes_file(out: DiscoveredSaveFile, f: SaveFileFacts, root: Seq<char>) -> bool {
    &&& out.name@ == match file_name_of(f.path@) {
        Some(n) => n,
        None => "save.dat"@,
    }
    &&& out.absolute_path@ == f.path@
    &&& out.relative_path@ == relative_text(f.path@, root)
    &&& out.size == f.size
    &&& (f.modified_at matches Some(t) ==> out.modified_at@ == rfc3339_text(t.secs_of(), t.nanos_of()))
    &&& (f.modified_at is None ==> exists|t: UtcTime| out.modified_at@ == rfc3339_text(t.secs_of(), t.nanos_of()))
}

fn forward_slashes_exec(s: &str) -> (out: String)
    ensures
        out@ == forward_slashes(s@),
{
    let cs = crate::text::chars_of(s);
    let mut out = String::new();
    let n = cs.len();
    for i in 0..n
        invariant
            n == cs@.len(),
            cs@ == s@,
            out@ == forward_slashes(s@).take(i as int),
    {
        let c = if cs[i] == '\\' {
            '/'
        } else {
            cs[i]
        };
        out.push(c);
        assert(out@ =~= forward_slashes(s@).take(i + 1));
    }
    assert(forward_slashes(s@).take(n as int) =~= forward_slashes(s@));
    out
}

/// The description of a save-like file found under `root`, with `now` standing
/// in for a modification time the platform did not give.
pub fn discovered_file_at(root: &str, f: &SaveFileFacts, now: UtcTime) -> (out: DiscoveredSaveFile)
    ensures
        describes_file(out, *f, root@),
        f.modified_at is None ==> out.modified_at@ == rfc3339_text(now.secs_of(), now.nanos_of()),
{
    let path = f.path.as_str();
    let name = match file_name(path) {
        Some(n) => n,
        None => owned("save.dat"),
    };
    let relative_path = match crate::platform::fs::strip_prefix(path, root) {
        Some(t) => forward_slashes_exec(t.as_str()),
        None => match file_name(path) {
            Some(n) => n,
            None => String::new(),
        },
    };
    let stamp = match f.modified_at {
        Some(t) => t,
        None => now,
    };
    DiscoveredSaveFile {
        name,
        absolute_path: owned(path),
        relative_path,
        size: f.size,
        modified_at: to_rfc3339(&stamp),
    }
}

/// The save-like files under `root` (walked to depth 4; `files` holds the facts
/// of `save_file_paths` of that walk), ordered by relative path. Nothing when
/// `root` is missing or not a directory. A file without a modification time is
/// stamped with the current time.
pub fn scan_save_files_in_directory(root: &str, probe: PathProbe, files: &Vec<SaveFileFacts>) -> (out: Vec<DiscoveredSaveFile>)
    ensures
        !(probe.exists && probe.is_dir) ==> out@.len() == 0,
        probe.exists && probe.is_dir ==> {
            &&& out@.len() == files@.len()
            &&& exists|order: Seq<usize>|
                {
                    &&& is_permutation(order, files@.len())
                    &&& forall|i: int| 0 <= i < out@.len() ==> describes_file(#[trigger] out@[i], files@[order[i] as int], root@)
                }
            &&& forall|i: int, j: int|
                0 <= i < j < out@.len() ==> !key_lt(
                    char_key(#[trigger] out@[j].relative_path@),
                    char_key(#[trigger] out@[i].relative_path@),
                )
        },
{
    let mut found: Vec<DiscoveredSaveFile> = Vec::new();
    if !probe.exists || !probe.is_dir {
        return found;
    }
    let n = files.len();
    let mut keys: Vec<Vec<i128>> = Vec::new();
    for i in 0..n
        invariant
            n == files@.len(),
            found@.len() == i,
            keys@.len() == i,
            forall|k: int| 0 <= k < i ==> describes_file(#[trigger] found@[k], files@[k], root@),
            forall|k: int| 0 <= k < i ==> #[trigger] keys@[k]@ == char_key(found@[k].relative_path@),
    {
        let now = now_utc();
        let d = discovered_file_at(root, &files[i], now);
        keys.push(text_key(d.relative_path.as_str()));
        found.push(d);
    }
    let order = stable_order(&keys, false);
    let ghost ks = key_views(keys@);
    let ghost recs = found@;
    let out = apply_order(found, &order);
    proof {
        assert forall|i: int| 0 <= i < out@.len() implies describes_file(#[trigger] out@[i], files@[order@[i] as int], root@) by {
            assert(out@[i] == recs[order@[i] as int]);
        }
        assert forall|i: int, j: int| 0 <= i < j < out@.len() implies !key_lt(
            char_key(#[trigger] out@[j].relative_path@),
            char_key(#[trigger] out@[i].relative_path@),
        ) by {
            assert(out@[i] == recs[order@[i] as int]);
            assert(out@[j] == recs[order@[j] as int]);
            assert(ks[order@[i] as int] == char_key(recs[order@[i] as int].relative_path@));
            assert(ks[order@[j] as int] == char_key(recs[order@[j] as int].relative_path@));
        }
    }
    out
}


/// A listed file path as a walk of the (normalized) root `root` gives it: no
/// `.` or `..` component, and strictly below the root by path components.
pub open spec fn listed_under(root: Seq<char>, p: Seq<char>) -> bool {
    &&& normal_comps(comps(p))
    &&& comps(root).len() < comps(p).len()
    &&& path_starts_with(p, root)
}

proof fn lemma_normal_prefix(c: Seq<Seq<char>>, n: int)
    requires
        normal_comps(c),
        0 <= n <= c.len(),
    ensures
        normal_comps(c.subrange(0, n)),
{
    let d = c.subrange(0, n);
    assert forall|i: int| 0 <= i < d.len() implies d[i] == c[i] by {}
}

proof fn lemma_canonical_root_under(dir: Seq<char>, root: Seq<char>)
    requires
        normal_comps(comps(dir)),
        path_starts_with(dir, root),
    ensures
        normal_comps(comps(canonical_root(dir, root))),
        path_starts_with(canonical_root(dir, root), root),
    decreases comps(dir).len(),
{
    match file_name_of(dir) {
        None => {},
        Some(name) => if is_slot_name(name) {
            match parent_of(dir) {
                None => {},
                Some(p) => if comps(p) == comps(root) || !path_starts_with(p, root) {
                } else {
                    crate::platform::fs::lemma_parent_comps(dir);
                    assert(comps(p) =~= comps(dir).subrange(0, comps(dir).len() - 1));
                    lemma_normal_prefix(comps(dir), comps(dir).len() - 1);
                    lemma_canonical_root_under(p, root);
                },
            }
        },
    }
}

proof fn lemma_save_roots_under(root: Seq<char>, entries: Seq<ListedPath>)
    requires
        forall|j: int| 0 <= j < entries.len() && (#[trigger] entries[j]).is_file ==> listed_under(root, entries[j].path@),
    ensures
        forall|k: int|
            0 <= k < save_roots(root, entries).len() ==> normal_comps(comps(#[trigger] save_roots(root, entries)[k]))
                && path_starts_with(save_roots(root, entries)[k], root),
    decreases entries.len(),
{
    if entries.len() > 0 {
        let init = entries.drop_last();
        assert forall|j: int| 0 <= j < init.len() && (#[trigger] init[j]).is_file implies listed_under(root, init[j].path@) by {
            assert(init[j] == entries[j]);
        }
        lemma_save_roots_under(root, init);
        let e = entries.last();
        let r = save_roots(root, init);
        if e.is_file && save_like(e.path@) {
            assert(entries[entries.len() - 1] == e);
            match parent_of(e.path@) {
                Some(p) => {
                    crate::platform::fs::lemma_parent_comps(e.path@);
                    let c = comps(e.path@);
                    assert(comps(p) =~= c.subrange(0, c.len() - 1));
                    lemma_normal_prefix(c, c.len() - 1);
                    assert(path_starts_with(p, root)) by {
                        assert(comps(p).subrange(0, comps(root).len() as int) =~= c.subrange(0, comps(root).len() as int));
                    }
                    lemma_canonical_root_under(p, root);
                    let out = save_roots(root, entries);
                    assert(out == r.push(canonical_root(p, root)));
                    assert forall|k: int| 0 <= k < out.len() implies normal_comps(comps(#[trigger] out[k]))
                        && path_starts_with(out[k], root) by {
                        if k < r.len() {
                            assert(out[k] == r[k]);
                        }
                    }
                },
                None => {},
            }
        }
    }
}

proof fn lemma_candidate_dirs_under(root: Seq<char>, entries: Seq<ListedPath>)
    requires
        forall|j: int| 0 <= j < entries.len() && (#[trigger] entries[j]).is_file ==> listed_under(root, entries[j].path@),
    ensures
        forall|k: int|
            0 <= k < candidate_dirs(root, entries).len() ==> path_starts_with(
                #[trigger] candidate_dirs(root, entries)[k],
                root,
            ),
{
    lemma_save_roots_under(root, entries);
    let sr = save_roots(root, entries);
    let f = first_by_lower(sr);
    let d = dedup_normalized(f);
    assert forall|k: int| 0 <= k < d.len() implies path_starts_with(#[trigger] d[k], root) by {
        let x = d[k];
        let m = lemma_dedup_source(f, k);
        let fm = f[m];
        assert(sr.contains(fm)) by {
            law_first_by_lower(sr);
        }
        let q = choose|q: int| 0 <= q < sr.len() && sr[q] == fm;
        assert(normal_comps(comps(sr[q])) && path_starts_with(sr[q], root));
        crate::platform::fs::lemma_normal_path_fixed(fm);
        assert(comps(x) == comps(fm));
    }
}

/// An element of a de-duplicated list is the normalization of an input.
proof fn lemma_dedup_source(f: Seq<Seq<char>>, k: int) -> (m: int)
    requires
        0 <= k < dedup_normalized(f).len(),
    ensures
        0 <= m < f.len(),
        dedup_normalized(f)[k] == normalized(f[m]),
{
    crate::platform::fs::law_dedup_paths(f);
    choose|m: int| 0 <= m < f.len() && #[trigger] dedup_normalized(f)[k] == normalized(f[m])
}

proof fn lemma_kept_dirs_from(ds: Seq<Seq<char>>, ignored: Seq<crate::services::blacklist_service::IgnoredEntry>)
    ensures
        forall|k: int| 0 <= k < kept_dirs(ds, ignored).len() ==> ds.contains(#[trigger] kept_dirs(ds, ignored)[k]),
    decreases ds.len(),
{
    if ds.len() > 0 {
        let init = ds.drop_last();
        lemma_kept_dirs_from(init, ignored);
        let r = kept_dirs(init, ignored);
        let out = kept_dirs(ds, ignored);
        assert forall|k: int| 0 <= k < out.len() implies ds.contains(#[trigger] out[k]) by {
            if k < r.len() {
                assert(out[k] == r[k]);
                let m = choose|m: int| 0 <= m < init.len() && init[m] == r[k];
                assert(ds[m] == init[m]);
            } else {
                assert(ds[ds.len() - 1] == out[k]);
            }
        }
    }
}

proof fn lemma_all_scan_dirs_under(scans: Seq<RootScan>, ignored: Seq<crate::services::blacklist_service::IgnoredEntry>)
    requires
        forall|i: int, j: int|
            0 <= i < scans.len() && 0 <= j < scans[i].listing.entries@.len() && (#[trigger] scans[i].listing.entries@[j]).is_file
                ==> listed_under(scans[i].root@, scans[i].listing.entries@[j].path@),
    ensures
        forall|k: int|
            0 <= k < all_scan_dirs(scans, ignored).len() ==> exists|i: int|
                0 <= i < scans.len() && path_starts_with(#[trigger] all_scan_dirs(scans, ignored)[k], scans[i].root@),
    decreases scans.len(),
{
    if scans.len() > 0 {
        let init = scans.drop_last();
        assert forall|i: int, j: int|
            0 <= i < init.len() && 0 <= j < init[i].listing.entries@.len() && (#[trigger] init[i].listing.entries@[j]).is_file
                implies listed_under(init[i].root@, init[i].listing.entries@[j].path@) by {
            assert(init[i] == scans[i]);
        }
        lemma_all_scan_dirs_under(init, ignored);
        let last = scans.last();
        let li = scans.len() - 1;
        assert(scans[li] == last);
        let es = last.listing.entries@;
        assert forall|j: int| 0 <= j < es.len() && (#[trigger] es[j]).is_file implies listed_under(last.root@, es[j].path@) by {
            assert(scans[li].listing.entries@[j] == es[j]);
        }
        lemma_candidate_dirs_under(last.root@, es);
        lemma_kept_dirs_from(candidate_dirs(last.root@, es), ignored);
        let a = all_scan_dirs(init, ignored);
        let b = scan_dirs(last, ignored);
        let out = all_scan_dirs(scans, ignored);
        assert(out == a + b);
        assert forall|k: int| 0 <= k < out.len() implies exists|i: int|
            0 <= i < scans.len() && path_starts_with(#[trigger] out[k], scans[i].root@) by {
            if k < a.len() {
                assert(out[k] == a[k]);
                let i = choose|i: int| 0 <= i < init.len() && path_starts_with(a[k], init[i].root@);
                assert(init[i] == scans[i]);
            } else {
                let x = out[k];
                assert(x == b[k - a.len()]);
                let cd = candidate_dirs(last.root@, es);
                assert(kept_dirs(cd, ignored).contains(x));
                let m = choose|m: int| 0 <= m < cd.len() && cd[m] == x;
                assert(path_starts_with(cd[m], last.root@));
                assert(path_starts_with(x, scans[li].root@));
            }
        }
    }
}

/// Discovery stays under the scanned roots: when every listed file lies
/// strictly below its scan root and has no `.` or `..` component (as a walk of
/// a normalized root lists them), every discovered folder, and so every
/// discovered game's save folder, lies under one of the scanned roots.
pub proof fn law_discovered_under_scanned_roots(
    r: DiscoverySummary,
    scans: Seq<RootScan>,
    ignored: Seq<crate::services::blacklist_service::IgnoredEntry>,
)
    requires
        discovery_of(r, scans, ignored),
        forall|i: int, j: int|
            0 <= i < scans.len() && 0 <= j < scans[i].listing.entries@.len() && (#[trigger] scans[i].listing.entries@[j]).is_file
                ==> listed_under(scans[i].root@, scans[i].listing.entries@[j].path@),
    ensures
        forall|k: int|
            0 <= k < discovered_dirs(scans, ignored).len() ==> exists|i: int|
                0 <= i < scans.len() && path_starts_with(#[trigger] discovered_dirs(scans, ignored)[k], scans[i].root@),
        forall|g: int|
            0 <= g < r.discovered_games@.len() ==> exists|i: int|
                0 <= i < scans.len() && path_starts_with(#[trigger] r.discovered_games@[g].active_save_dir@, scans[i].root@),
{
    lemma_all_scan_dirs_under(scans, ignored);
    law_discovered_folders_distinct(scans, ignored);
    let dd = discovered_dirs(scans, ignored);
    let all = all_scan_dirs(scans, ignored);
    assert forall|k: int| 0 <= k < dd.len() implies exists|i: int|
        0 <= i < scans.len() && path_starts_with(#[trigger] dd[k], scans[i].root@) by {
        assert(all.contains(dd[k]));
        let m = choose|m: int| 0 <= m < all.len() && all[m] == dd[k];
        assert(exists|i: int| 0 <= i < scans.len() && path_starts_with(all[m], scans[i].root@));
    }
    let order = choose|order: Seq<usize>|
        {
            &&& is_permutation(order, r.discovered_games@.len())
            &&& forall|i: int|
                0 <= i < r.discovered_games@.len() ==> record_for_dir(
                    #[trigger] r.discovered_games@[i],
                    dd[order[i] as int],
                )
        };
    assert forall|g: int| 0 <= g < r.discovered_games@.len() implies exists|i: int|
        0 <= i < scans.len() && path_starts_with(#[trigger] r.discovered_games@[g].active_save_dir@, scans[i].root@) by {
        assert(record_for_dir(r.discovered_games@[g], dd[order[g] as int]));
        assert(0 <= order[g] < dd.len());
        let k = order[g] as int;
        assert(exists|i: int| 0 <= i < scans.len() && path_starts_with(dd[k], scans[i].root@));
    }
}

/// Discovery never lists two games for one folder: no two discovered folders
/// share a lowercase text (so no two discovered records share an id), every
/// discovered folder comes from some scan, and every folder a scan contributes
/// is represented.
pub proof fn law_discovered_folders_distinct(scans: Seq<RootScan>, ignored: Seq<crate::services::blacklist_service::IgnoredEntry>)
    ensures
        forall|i: int, j: int|
            0 <= i < j < discovered_dirs(scans, ignored).len() ==> unicode_lowercase(
                #[trigger] discovered_dirs(scans, ignored)[i],
            ) != unicode_lowercase(#[trigger] discovered_dirs(scans, ignored)[j]),
        forall|k: int|
            0 <= k < discovered_dirs(scans, ignored).len() ==> all_scan_dirs(scans, ignored).contains(
                #[trigger] discovered_dirs(scans, ignored)[k],
            ),
        forall|m: int|
            #![trigger all_scan_dirs(scans, ignored)[m]]
            0 <= m < all_scan_dirs(scans, ignored).len() ==> exists|k: int|
                0 <= k < discovered_dirs(scans, ignored).len() && unicode_lowercase(
                    #[trigger] discovered_dirs(scans, ignored)[k],
                ) == unicode_lowercase(all_scan_dirs(scans, ignored)[m]),
{
    law_first_by_lower(all_scan_dirs(scans, ignored));
}

} // verus!
