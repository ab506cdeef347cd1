//! The game library: games the user added by hand, and the merge of those with
//! the discovered games into one canonical list.

use vstd::prelude::*;

use crate::domain::game::{same_game, GameRecord, GameSource};
use crate::platform::fs::{
    normalize_path, normalized, parent, parent_of, path_key, resolve_path, resolved, validate_directory,
    DirectoryError, PathContext, PathProbe,
};
use crate::services::blacklist_service::{filter_games, opt_text, unignored, IgnoredRegistry};
use crate::services::discovery_service::DiscoverySummary;
use crate::sorting::{apply_order, is_permutation, key_views, stable_order, stably_sorted};
use crate::text::{char_key, concat3, lowercase, owned, str_eq, trim, trimmed, unicode_lowercase};
use crate::time::{now_utc, UtcTime};

verus! {

/// The games the user added by hand.
#[derive(Clone, Debug)]
pub struct ManualGameRegistry {
    pub games: Vec<GameRecord>,
}

/// The key under which two games are the same game: the lowercase text of the
/// normalized save folder.
pub fn identity_key_for_path(path: &str) -> (r: String)
    ensures
        r@ == path_key(path@),
{
    let n = normalize_path(path);
    lowercase(n.as_str())
}

/// A game's identity does not depend on how its folder is written: a path and
/// its normalized form have the same key, and two paths whose normalized texts
/// have the same lowercase text have the same key.
pub proof fn law_identity_key_normalized(p: Seq<char>, q: Seq<char>)
    ensures
        path_key(p) == path_key(normalized(p)),
        unicode_lowercase(normalized(p)) == unicode_lowercase(normalized(q)) ==> path_key(p) == path_key(q),
{
    crate::platform::fs::lemma_normalized_idempotent(p);
}

/// The order in which games are listed: by lowercase name.
pub open spec fn name_key(g: GameRecord) -> Seq<i128> {
    char_key(unicode_lowercase(g.name@))
}

/// `sorted` lists `games` in a stable order of their lowercase names.
pub open spec fn sorted_by_name(games: Seq<GameRecord>, sorted: Seq<GameRecord>) -> bool {
    exists|order: Seq<usize>|
        {
            &&& is_permutation(order, games.len())
            &&& stably_sorted(Seq::new(games.len(), |i: int| name_key(games[i])), order, false)
            &&& sorted.len() == games.len()
            &&& forall|i: int| 0 <= i < sorted.len() ==> same_game(#[trigger] sorted[i], games[order[i] as int])
        }
}

/// The games listed by lowercase name, stably.
pub fn sort_by_name(games: &Vec<GameRecord>) -> (out: Vec<GameRecord>)
    ensures
        sorted_by_name(games@, out@),
{
    let n = games.len();
    let mut keys: Vec<Vec<i128>> = Vec::new();
    let mut copies: Vec<GameRecord> = Vec::new();
    for i in 0..n
        invariant
            n == games@.len(),
            keys@.len() == i,
            copies@.len() == i,
            forall|k: int| 0 <= k < i ==> #[trigger] keys@[k]@ == name_key(games@[k]),
            forall|k: int| 0 <= k < i ==> same_game(#[trigger] copies@[k], games@[k]),
    {
        let lower = lowercase(games[i].name.as_str());
        keys.push(crate::text::text_key(lower.as_str()));
        copies.push(games[i].duplicate());
    }
    let order = stable_order(&keys, false);
    assert(key_views(keys@) =~= Seq::new(games@.len(), |i: int| name_key(games@[i])));
    let ghost cs = copies@;
    let out = apply_order(copies, &order);
    assert forall|i: int| 0 <= i < out@.len() implies same_game(#[trigger] out@[i], games@[order@[i] as int]) by {
        assert(out@[i] == cs[order@[i] as int]);
    }
    out
}

/// `list_manual_games`: the hand-added games by lowercase name.
pub fn list_manual_games(registry: &ManualGameRegistry) -> (out: Vec<GameRecord>)
    ensures
        sorted_by_name(registry.games@, out@),
{
    sort_by_name(&registry.games)
}

/// The games other than `id`, in order.
pub open spec fn without_game(games: Seq<GameRecord>, id: Seq<char>) -> Seq<GameRecord>
    decreases games.len(),
{
    if games.len() == 0 {
        Seq::empty()
    } else {
        let r = without_game(games.drop_last(), id);
        if games.last().id@ == id {
            r
        } else {
            r.push(games.last())
        }
    }
}

/// `remove_manual_game`: drops every hand-added game with the id.
pub fn remove_manual_game(registry: &mut ManualGameRegistry, game_id: &str)
    ensures
        final(registry).games@ == without_game(old(registry).games@, game_id@),
{
    let mut games: Vec<GameRecord> = Vec::new();
    std::mem::swap(&mut games, &mut registry.games);
    let ghost all = games@;
    let n = games.len();
    let mut kept: Vec<GameRecord> = Vec::new();
    let mut idx: usize = 0;
    for g in it: games
        invariant
            n == all.len(),
            all == it.seq(),
            idx == it.index(),
            kept@ == without_game(all.take(idx as int), game_id@),
    {
        assert(all.take(idx + 1).drop_last() =~= all.take(idx as int));
        assert(all.take(idx + 1).last() == g);
        if !str_eq(g.id.as_str(), game_id) {
            kept.push(g);
        }
        idx = idx + 1;
    }
    assert(all.take(all.len() as int) =~= all);
    registry.games = kept;
}

/// Why a hand-added game was refused.
pub enum LibraryError {
    EmptyName,
    EmptyPath,
    Directory(DirectoryError),
    NotFound(String),
}

impl LibraryError {
    /// The message shown for this error.
    pub open spec fn text(&self) -> Seq<char> {
        match self {
            LibraryError::EmptyName => "manual game name cannot be empty"@,
            LibraryError::EmptyPath => "manual save path cannot be empty"@,
            LibraryError::Directory(d) => d.text(),
            LibraryError::NotFound(id) => "manual game with id '"@ + id@ + "' was not found"@,
        }
    }

    pub fn message(&self) -> (m: String)
        ensures
            m@ == self.text(),
    {
        match self {
            LibraryError::EmptyName => owned("manual game name cannot be empty"),
            LibraryError::EmptyPath => owned("manual save path cannot be empty"),
            LibraryError::Directory(d) => d.message(),
            LibraryError::NotFound(id) => concat3("manual game with id '", id.as_str(), "' was not found"),
        }
    }
}


/// The hand-added game input passes the checks: a name that is not blank, a
/// save folder that resolves to a non-empty path naming an existing directory.
pub open spec fn input_ok(name: Seq<char>, raw: Seq<char>, ctx: PathContext, probe: PathProbe) -> bool {
    &&& trim(name).len() > 0
    &&& resolved(raw, ctx).len() > 0
    &&& probe.exists
    &&& probe.is_dir
}

/// The error the checks give for a refused input, in the order they are made.
pub open spec fn input_error(e: LibraryError, name: Seq<char>, raw: Seq<char>, ctx: PathContext, probe: PathProbe) -> bool {
    if trim(name).len() == 0 {
        e is EmptyName
    } else if resolved(raw, ctx).len() == 0 {
        e is EmptyPath
    } else if !probe.exists {
        e matches LibraryError::Directory(DirectoryError::Missing(p)) && p@ == resolved(raw, ctx)
    } else {
        e matches LibraryError::Directory(DirectoryError::NotADirectory(p)) && p@ == resolved(raw, ctx)
    }
}

/// Checks a hand-added game's name and save folder (`probe` is what the file
/// system reports of the resolved folder); gives the trimmed name and the
/// resolved folder. These checks come before the registry is read.
pub fn checked_input(name: &str, raw_save_dir: &str, ctx: &PathContext, probe: PathProbe) -> (r: Result<(String, String), LibraryError>)
    ensures
        r is Ok <==> input_ok(name@, raw_save_dir@, *ctx, probe),
        r matches Ok((n, d)) ==> n@ == trim(name@) && d@ == resolved(raw_save_dir@, *ctx),
        r matches Err(e) ==> input_error(e, name@, raw_save_dir@, *ctx, probe),
{
    let cleaned_name = trimmed(name);
    if cleaned_name.unicode_len() == 0 {
        return Err(LibraryError::EmptyName);
    }
    let save_dir = resolve_path(raw_save_dir, ctx);
    if save_dir.unicode_len() == 0 {
        return Err(LibraryError::EmptyPath);
    }
    match validate_directory(save_dir.as_str(), probe) {
        Ok(()) => Ok((cleaned_name, save_dir)),
        Err(e) => Err(LibraryError::Directory(e)),
    }
}

/// The id of a hand-added game.
pub open spec fn manual_id(name: Seq<char>, dir: Seq<char>) -> Seq<char> {
    "manual:"@ + unicode_lowercase(name) + ":"@ + unicode_lowercase(dir)
}

/// The position of the first game with the id, or -1.
pub open spec fn game_index(games: Seq<GameRecord>, id: Seq<char>) -> int
    decreases games.len(),
{
    if games.len() == 0 {
        -1
    } else if games[0].id@ == id {
        0
    } else {
        let r = game_index(games.drop_first(), id);
        if r < 0 {
            -1
        } else {
            r + 1
        }
    }
}

pub proof fn lemma_game_index(games: Seq<GameRecord>, id: Seq<char>)
    ensures
        -1 <= game_index(games, id) < games.len(),
        game_index(games, id) >= 0 ==> games[game_index(games, id)].id@ == id,
        forall|k: int| 0 <= k < games.len() && (game_index(games, id) < 0 || k < game_index(games, id))
            ==> games[k].id@ != id,
    decreases games.len(),
{
    if games.len() > 0 && games[0].id@ != id {
        let rest = games.drop_first();
        lemma_game_index(rest, id);
        assert forall|k: int| 0 <= k < games.len() && (game_index(games, id) < 0 || k < game_index(games, id))
            implies games[k].id@ != id by {
            if k > 0 {
                assert(games[k] == rest[k - 1]);
            }
        }
    }
}

pub(crate) fn find_game(games: &Vec<GameRecord>, id: &str) -> (r: Option<usize>)
    ensures
        r matches Some(i) ==> i == game_index(games@, id@),
        r is None ==> game_index(games@, id@) < 0,
{
    proof {
        lemma_game_index(games@, id@);
    }
    let n = games.len();
    for i in 0..n
        invariant
            n == games@.len(),
            forall|k: int| 0 <= k < i ==> games@[k].id@ != id@,
            -1 <= game_index(games@, id@) < games@.len(),
            game_index(games@, id@) >= 0 ==> games@[game_index(games@, id@)].id@ == id@,
            forall|k: int| 0 <= k < games@.len() && (game_index(games@, id@) < 0 || k < game_index(games@, id@))
                ==> games@[k].id@ != id@,
    {
        if str_eq(games[i].id.as_str(), id) {
            return Some(i);
        }
    }
    None
}

/// `g` is `old` moved to the save folder `dir` under the name `name`, stamped `now`.
pub open spec fn retargeted(g: GameRecord, old: GameRecord, name: Seq<char>, dir: Seq<char>, now: UtcTime) -> bool {
    &&& g.id == old.id
    &&& g.name@ == name
    &&& g.active_save_dir@ == dir
    &&& opt_text(g.game_root) == parent_of(dir)
    &&& g.source == old.source
    &&& g.tags@ == old.tags@
    &&& g.created_at == old.created_at
    &&& g.updated_at == now
}

/// Rewrites game `i` of the list with a new name and save folder.
fn retarget(games: &mut Vec<GameRecord>, i: usize, name: &String, dir: &String, now: UtcTime) -> (g: GameRecord)
    requires
        i < old(games)@.len(),
    ensures
        final(games)@.len() == old(games)@.len(),
        forall|k: int| 0 <= k < old(games)@.len() && k != i ==> final(games)@[k] == old(games)@[k],
        retargeted(g, old(games)@[i as int], name@, dir@, now),
        same_game(final(games)@[i as int], g),
{
    let old_game = &games[i];
    let g = GameRecord {
        id: old_game.id.clone(),
        name: name.clone(),
        game_root: parent(dir.as_str()),
        active_save_dir: dir.clone(),
        source: old_game.source,
        tags: crate::text::clone_strings(&old_game.tags),
        created_at: old_game.created_at,
        updated_at: now,
    };
    let copy = g.duplicate();
    games.set(i, copy);
    g
}

/// What `add_manual_game` did when it succeeded at the instant `now`: the game
/// with the id `manual:<lowercase name>:<lowercase folder>` was moved there and
/// renamed if the list had it (every other game unchanged), or else appended as
/// a new game with the tag `manual-entry`.
pub open spec fn manual_added(
    before: Seq<GameRecord>,
    after: Seq<GameRecord>,
    name: Seq<char>,
    dir: Seq<char>,
    g: GameRecord,
    now: UtcTime,
) -> bool {
    let id = manual_id(name, dir);
    let i = game_index(before, id);
    &&& g.id@ == id
    &&& if i >= 0 {
        &&& after.len() == before.len()
        &&& forall|k: int| 0 <= k < before.len() && k != i ==> after[k] == before[k]
        &&& retargeted(g, before[i], name, dir, now)
        &&& same_game(after[i], g)
    } else {
        &&& after.len() == before.len() + 1
        &&& forall|k: int| 0 <= k < before.len() ==> after[k] == before[k]
        &&& same_game(after.last(), g)
        &&& g.name@ == name
        &&& g.active_save_dir@ == dir
        &&& opt_text(g.game_root) == parent_of(dir)
        &&& g.source == GameSource::UserAdded
        &&& g.tags@.len() == 1
        &&& g.tags@[0]@ == "manual-entry"@
        &&& g.created_at == now
        &&& g.updated_at == now
    }
}

/// `add_manual_game` at the instant `now`: after the checks, the game with the
/// id `manual:<lowercase name>:<lowercase folder>` is moved to the folder and
/// renamed if the registry has it, or else added with the tag `manual-entry`.
pub fn add_manual_game_at(
    registry: &mut ManualGameRegistry,
    name: &str,
    raw_save_dir: &str,
    ctx: &PathContext,
    probe: PathProbe,
    now: UtcTime,
) -> (r: Result<GameRecord, LibraryError>)
    ensures
        r is Ok <==> input_ok(name@, raw_save_dir@, *ctx, probe),
        r matches Err(e) ==> input_error(e, name@, raw_save_dir@, *ctx, probe) && final(registry).games@ == old(registry).games@,
        r matches Ok(g) ==> manual_added(old(registry).games@, final(registry).games@, trim(name@), resolved(raw_save_dir@, *ctx), g, now),
{
    let (cleaned_name, save_dir) = match checked_input(name, raw_save_dir, ctx, probe) {
        Ok(v) => v,
        Err(e) => return Err(e),
    };
    let lower_name = lowercase(cleaned_name.as_str());
    let lower_dir = lowercase(save_dir.as_str());
    let head = concat3("manual:", lower_name.as_str(), ":");
    let id = crate::text::concat2(head.as_str(), lower_dir.as_str());
    match find_game(&registry.games, id.as_str()) {
        Some(i) => {
            proof {
                lemma_game_index(registry.games@, id@);
            }
            let g = retarget(&mut registry.games, i, &cleaned_name, &save_dir, now);
            Ok(g)
        },
        None => {
            let mut tags: Vec<String> = Vec::new();
            tags.push(owned("manual-entry"));
            let record = GameRecord {
                id,
                name: cleaned_name,
                game_root: parent(save_dir.as_str()),
                active_save_dir: save_dir,
                source: GameSource::UserAdded,
                tags,
                created_at: now,
                updated_at: now,
            };
            registry.games.push(record.duplicate());
            Ok(record)
        },
    }
}

/// `add_manual_game`, stamped with the current time.
pub fn add_manual_game(
    registry: &mut ManualGameRegistry,
    name: &str,
    raw_save_dir: &str,
    ctx: &PathContext,
    probe: PathProbe,
) -> (r: Result<GameRecord, LibraryError>)
    ensures
        r is Ok <==> input_ok(name@, raw_save_dir@, *ctx, probe),
        r matches Err(e) ==> input_error(e, name@, raw_save_dir@, *ctx, probe) && final(registry).games@ == old(registry).games@,
        r matches Ok(g) ==> exists|now: UtcTime|
            manual_added(old(registry).games@, final(registry).games@, trim(name@), resolved(raw_save_dir@, *ctx), g, now),
{
    let now = now_utc();
    let r = add_manual_game_at(registry, name, raw_save_dir, ctx, probe, now);
    assert(r matches Ok(g) ==> manual_added(old(registry).games@, registry.games@, trim(name@), resolved(raw_save_dir@, *ctx), g, now));
    r
}

/// `edit_manual_game` at the instant `now`: after the checks, the first game
/// with the id is renamed and moved to the folder; an unknown id is refused.
pub fn edit_manual_game_at(
    registry: &mut ManualGameRegistry,
    game_id: &str,
    new_name: &str,
    new_raw_save_dir: &str,
    ctx: &PathContext,
    probe: PathProbe,
    now: UtcTime,
) -> (r: Result<GameRecord, LibraryError>)
    ensures
        r is Ok <==> input_ok(new_name@, new_raw_save_dir@, *ctx, probe) && game_index(old(registry).games@, game_id@) >= 0,
        r matches Err(e) ==> final(registry).games@ == old(registry).games@,
        r matches Err(e) ==> !input_ok(new_name@, new_raw_save_dir@, *ctx, probe) ==> input_error(e, new_name@, new_raw_save_dir@, *ctx, probe),
        r matches Err(e) ==> input_ok(new_name@, new_raw_save_dir@, *ctx, probe) ==> (e matches LibraryError::NotFound(id) && id@ == game_id@),
        r matches Ok(g) ==> {
            let i = game_index(old(registry).games@, game_id@);
            &&& final(registry).games@.len() == old(registry).games@.len()
            &&& forall|k: int| 0 <= k < old(registry).games@.len() && k != i ==> final(registry).games@[k] == old(registry).games@[k]
            &&& retargeted(g, old(registry).games@[i], trim(new_name@), resolved(new_raw_save_dir@, *ctx), now)
            &&& same_game(final(registry).games@[i], g)
        },
{
    let (cleaned_name, save_dir) = match checked_input(new_name, new_raw_save_dir, ctx, probe) {
        Ok(v) => v,
        Err(e) => return Err(e),
    };
    match find_game(&registry.games, game_id) {
        Some(i) => {
            proof {
                lemma_game_index(registry.games@, game_id@);
            }
            let g = retarget(&mut registry.games, i, &cleaned_name, &save_dir, now);
            Ok(g)
        },
        None => Err(LibraryError::NotFound(owned(game_id))),
    }
}

/// `edit_manual_game`, stamped with the current time.
pub fn edit_manual_game(
    registry: &mut ManualGameRegistry,
    game_id: &str,
    new_name: &str,
    new_raw_save_dir: &str,
    ctx: &PathContext,
    probe: PathProbe,
) -> (r: Result<GameRecord, LibraryError>)
    ensures
        r is Ok <==> input_ok(new_name@, new_raw_save_dir@, *ctx, probe) && game_index(old(registry).games@, game_id@) >= 0,
        r matches Err(e) ==> final(registry).games@ == old(registry).games@,
        r matches Err(e) ==> !input_ok(new_name@, new_raw_save_dir@, *ctx, probe) ==> input_error(e, new_name@, new_raw_save_dir@, *ctx, probe),
        r matches Err(e) ==> input_ok(new_name@, new_raw_save_dir@, *ctx, probe) ==> (e matches LibraryError::NotFound(id) && id@ == game_id@),
        r matches Ok(g) ==> {
            let i = game_index(old(registry).games@, game_id@);
            &&& final(registry).games@.len() == old(registry).games@.len()
            &&& forall|k: int| 0 <= k < old(registry).games@.len() && k != i ==> final(registry).games@[k] == old(registry).games@[k]
            &&& exists|now: UtcTime| retargeted(g, old(registry).games@[i], trim(new_name@), resolved(new_raw_save_dir@, *ctx), now)
            &&& same_game(final(registry).games@[i], g)
        },
{
    let now = now_utc();
    let r = edit_manual_game_at(registry, game_id, new_name, new_raw_save_dir, ctx, probe, now);
    assert(r matches Ok(g) ==> retargeted(g, old(registry).games@[game_index(old(registry).games@, game_id@)], trim(new_name@), resolved(new_raw_save_dir@, *ctx), now));
    r
}


/// A game record as a mathematical value.
pub struct GameView {
    pub id: Seq<char>,
    pub name: Seq<char>,
    pub game_root: Option<Seq<char>>,
    pub active_save_dir: Seq<char>,
    pub source: GameSource,
    pub tags: Seq<Seq<char>>,
    pub created_at: UtcTime,
    pub updated_at: UtcTime,
}

pub open spec fn game_view(g: GameRecord) -> GameView {
    GameView {
        id: g.id@,
        name: g.name@,
        game_root: opt_text(g.game_root),
        active_save_dir: g.active_save_dir@,
        source: g.source,
        tags: crate::platform::fs::string_views(g.tags@),
        created_at: g.created_at,
        updated_at: g.updated_at,
    }
}

pub open spec fn game_views(gs: Seq<GameRecord>) -> Seq<GameView> {
    Seq::new(gs.len(), |i: int| game_view(gs[i]))
}

/// The position of the first key equal to `key`, or -1.
pub open spec fn key_position(keys: Seq<Seq<char>>, key: Seq<char>) -> int
    decreases keys.len(),
{
    if keys.len() == 0 {
        -1
    } else if keys[0] == key {
        0
    } else {
        let r = key_position(keys.drop_first(), key);
        if r < 0 {
            -1
        } else {
            r + 1
        }
    }
}

pub proof fn lemma_key_position(keys: Seq<Seq<char>>, key: Seq<char>)
    ensures
        -1 <= key_position(keys, key) < keys.len(),
        key_position(keys, key) >= 0 ==> keys[key_position(keys, key)] == key,
        forall|k: int| 0 <= k < keys.len() && (key_position(keys, key) < 0 || k < key_position(keys, key))
            ==> keys[k] != key,
    decreases keys.len(),
{
    if keys.len() > 0 && keys[0] != key {
        let rest = keys.drop_first();
        lemma_key_position(rest, key);
        assert forall|k: int| 0 <= k < keys.len() && (key_position(keys, key) < 0 || k < key_position(keys, key))
            implies keys[k] != key by {
            if k > 0 {
                assert(keys[k] == rest[k - 1]);
            }
        }
    }
}

/// The identity keys of the games, in order.
pub open spec fn identity_keys(m: Seq<GameView>) -> Seq<Seq<char>> {
    Seq::new(m.len(), |i: int| path_key(m[i].active_save_dir))
}

/// A discovered game enters the merge: it replaces the game with the same
/// identity, or is added.
pub open spec fn put_discovered(m: Seq<GameView>, g: GameView) -> Seq<GameView> {
    let i = key_position(identity_keys(m), path_key(g.active_save_dir));
    if i >= 0 {
        m.update(i, g)
    } else {
        m.push(g)
    }
}

/// A discovered game claimed by a hand-added one: it takes the hand-added
/// game's name, id and update time, becomes user-added and is tagged
/// `manual-entry` (once).
pub open spec fn claimed(auto: GameView, manual: GameView) -> GameView {
    GameView {
        id: manual.id,
        name: manual.name,
        source: GameSource::UserAdded,
        updated_at: manual.updated_at,
        tags: if auto.tags.contains("manual-entry"@) {
            auto.tags
        } else {
            auto.tags.push("manual-entry"@)
        },
        ..auto
    }
}

/// A hand-added game enters the merge: it claims the game with the same
/// identity, or is added.
pub open spec fn put_manual(m: Seq<GameView>, g: GameView) -> Seq<GameView> {
    let i = key_position(identity_keys(m), path_key(g.active_save_dir));
    if i >= 0 {
        m.update(i, claimed(m[i], g))
    } else {
        m.push(g)
    }
}

pub open spec fn with_discovered(m: Seq<GameView>, gs: Seq<GameView>) -> Seq<GameView>
    decreases gs.len(),
{
    if gs.len() == 0 {
        m
    } else {
        put_discovered(with_discovered(m, gs.drop_last()), gs.last())
    }
}

pub open spec fn with_manual(m: Seq<GameView>, gs: Seq<GameView>) -> Seq<GameView>
    decreases gs.len(),
{
    if gs.len() == 0 {
        m
    } else {
        put_manual(with_manual(m, gs.drop_last()), gs.last())
    }
}

/// The discovered games, then the hand-added ones, merged by identity (a
/// hand-added game wins over a discovered one). The games are kept in the
/// order they first entered.
pub open spec fn merged_games(discovered: Seq<GameRecord>, manual: Seq<GameRecord>) -> Seq<GameView> {
    with_manual(with_discovered(Seq::empty(), game_views(discovered)), game_views(manual))
}

/// No two games share an identity key.
pub open spec fn keys_unique(m: Seq<GameView>) -> bool {
    forall|i: int, j: int|
        0 <= i < j < m.len() ==> path_key((#[trigger] m[i]).active_save_dir) != path_key((#[trigger] m[j]).active_save_dir)
}

proof fn lemma_put_discovered_unique(m: Seq<GameView>, g: GameView)
    requires
        keys_unique(m),
    ensures
        keys_unique(put_discovered(m, g)),
{
    let ks = identity_keys(m);
    let key = path_key(g.active_save_dir);
    lemma_key_position(ks, key);
    let p = key_position(ks, key);
    let r = put_discovered(m, g);
    if p >= 0 {
        assert(ks[p] == path_key(m[p].active_save_dir));
        assert forall|i: int, j: int| 0 <= i < j < r.len() implies path_key((#[trigger] r[i]).active_save_dir)
            != path_key((#[trigger] r[j]).active_save_dir) by {
            assert(path_key(r[i].active_save_dir) == path_key(m[i].active_save_dir));
            assert(path_key(r[j].active_save_dir) == path_key(m[j].active_save_dir));
        }
    } else {
        assert forall|i: int, j: int| 0 <= i < j < r.len() implies path_key((#[trigger] r[i]).active_save_dir)
            != path_key((#[trigger] r[j]).active_save_dir) by {
            if j == m.len() {
                assert(ks[i] == path_key(m[i].active_save_dir));
                assert(r[i] == m[i]);
            } else {
                assert(r[i] == m[i] && r[j] == m[j]);
            }
        }
    }
}

proof fn lemma_put_manual_unique(m: Seq<GameView>, g: GameView)
    requires
        keys_unique(m),
    ensures
        keys_unique(put_manual(m, g)),
{
    let ks = identity_keys(m);
    let key = path_key(g.active_save_dir);
    lemma_key_position(ks, key);
    let p = key_position(ks, key);
    let r = put_manual(m, g);
    if p >= 0 {
        assert forall|i: int, j: int| 0 <= i < j < r.len() implies path_key((#[trigger] r[i]).active_save_dir)
            != path_key((#[trigger] r[j]).active_save_dir) by {
            assert(r[i].active_save_dir == m[i].active_save_dir);
            assert(r[j].active_save_dir == m[j].active_save_dir);
        }
    } else {
        assert forall|i: int, j: int| 0 <= i < j < r.len() implies path_key((#[trigger] r[i]).active_save_dir)
            != path_key((#[trigger] r[j]).active_save_dir) by {
            if j == m.len() {
                assert(ks[i] == path_key(m[i].active_save_dir));
                assert(r[i] == m[i]);
            } else {
                assert(r[i] == m[i] && r[j] == m[j]);
            }
        }
    }
}

proof fn lemma_with_discovered_unique(m: Seq<GameView>, gs: Seq<GameView>)
    requires
        keys_unique(m),
    ensures
        keys_unique(with_discovered(m, gs)),
    decreases gs.len(),
{
    if gs.len() > 0 {
        lemma_with_discovered_unique(m, gs.drop_last());
        lemma_put_discovered_unique(with_discovered(m, gs.drop_last()), gs.last());
    }
}

proof fn lemma_with_manual_unique(m: Seq<GameView>, gs: Seq<GameView>)
    requires
        keys_unique(m),
    ensures
        keys_unique(with_manual(m, gs)),
    decreases gs.len(),
{
    if gs.len() > 0 {
        lemma_with_manual_unique(m, gs.drop_last());
        lemma_put_manual_unique(with_manual(m, gs.drop_last()), gs.last());
    }
}

/// The canonical library never lists one save folder twice: no two merged
/// games share an identity key.
pub proof fn law_merge_identities_unique(discovered: Seq<GameRecord>, manual: Seq<GameRecord>)
    ensures
        keys_unique(merged_games(discovered, manual)),
{
    lemma_with_discovered_unique(Seq::empty(), game_views(discovered));
    lemma_with_manual_unique(with_discovered(Seq::empty(), game_views(discovered)), game_views(manual));
}

/// No later game in `gs` (after position `j`) shares game `j`'s identity.
pub open spec fn last_with_key(gs: Seq<GameView>, j: int) -> bool {
    forall|k: int| j < k < gs.len() ==> path_key((#[trigger] gs[k]).active_save_dir) != path_key(gs[j].active_save_dir)
}

/// The merge shows game `g`'s identity under its id and name.
pub open spec fn shows_manual(m: Seq<GameView>, g: GameView) -> bool {
    exists|i: int|
        0 <= i < m.len() && path_key((#[trigger] m[i]).active_save_dir) == path_key(g.active_save_dir) && m[i].id
            == g.id && m[i].name == g.name
}

proof fn lemma_with_manual_shows(m: Seq<GameView>, gs: Seq<GameView>, j: int)
    requires
        0 <= j < gs.len(),
        last_with_key(gs, j),
    ensures
        shows_manual(with_manual(m, gs), gs[j]),
    decreases gs.len(),
{
    let init = gs.drop_last();
    let prev = with_manual(m, init);
    let g = gs.last();
    let ks = identity_keys(prev);
    lemma_key_position(ks, path_key(g.active_save_dir));
    let p = key_position(ks, path_key(g.active_save_dir));
    let r = with_manual(m, gs);
    if j == gs.len() - 1 {
        if p >= 0 {
            assert(ks[p] == path_key(prev[p].active_save_dir));
            assert(r[p] == claimed(prev[p], g));
            assert(path_key(r[p].active_save_dir) == path_key(g.active_save_dir));
        } else {
            assert(r[prev.len() as int] == g);
        }
    } else {
        assert forall|k: int| j < k < init.len() implies path_key((#[trigger] init[k]).active_save_dir) != path_key(
            init[j].active_save_dir,
        ) by {
            assert(init[k] == gs[k]);
        }
        assert(init[j] == gs[j]);
        lemma_with_manual_shows(m, init, j);
        let i = choose|i: int|
            0 <= i < prev.len() && path_key((#[trigger] prev[i]).active_save_dir) == path_key(gs[j].active_save_dir)
                && prev[i].id == gs[j].id && prev[i].name == gs[j].name;
        assert(path_key(g.active_save_dir) != path_key(gs[j].active_save_dir)) by {
            assert(g == gs[gs.len() - 1]);
        }
        if p >= 0 {
            assert(ks[p] == path_key(prev[p].active_save_dir));
            assert(p != i);
            assert(r[i] == prev[i]);
        } else {
            assert(r[i] == prev[i]);
        }
    }
}

/// Hand-added games win over discovered ones: a hand-added game that no later
/// hand-added game shares its save folder identity with is in the canonical
/// library, under that identity, with its own id and name.
pub proof fn law_manual_games_win(discovered: Seq<GameRecord>, manual: Seq<GameRecord>, j: int)
    requires
        0 <= j < manual.len(),
        last_with_key(game_views(manual), j),
    ensures
        shows_manual(merged_games(discovered, manual), game_view(manual[j])),
{
    lemma_with_manual_shows(with_discovered(Seq::empty(), game_views(discovered)), game_views(manual), j);
}

fn find_key(keys: &Vec<String>, key: &str) -> (r: Option<usize>)
    ensures
        r matches Some(i) ==> i == key_position(crate::platform::fs::string_views(keys@), key@),
        r is None ==> key_position(crate::platform::fs::string_views(keys@), key@) < 0,
{
    let ghost ks = crate::platform::fs::string_views(keys@);
    proof {
        lemma_key_position(ks, key@);
    }
    let n = keys.len();
    for i in 0..n
        invariant
            n == keys@.len(),
            ks == crate::platform::fs::string_views(keys@),
            forall|k: int| 0 <= k < i ==> ks[k] != key@,
            -1 <= key_position(ks, key@) < ks.len(),
            key_position(ks, key@) >= 0 ==> ks[key_position(ks, key@)] == key@,
            forall|k: int| 0 <= k < ks.len() && (key_position(ks, key@) < 0 || k < key_position(ks, key@))
                ==> ks[k] != key@,
    {
        if str_eq(keys[i].as_str(), key) {
            assert(ks[i as int] == keys@[i as int]@);
            return Some(i);
        }
        assert(ks[i as int] == keys@[i as int]@);
    }
    None
}

fn has_tag(tags: &Vec<String>, tag: &str) -> (r: bool)
    ensures
        r == crate::platform::fs::string_views(tags@).contains(tag@),
{
    let ghost ts = crate::platform::fs::string_views(tags@);
    let n = tags.len();
    for i in 0..n
        invariant
            n == tags@.len(),
            ts == crate::platform::fs::string_views(tags@),
            forall|k: int| 0 <= k < i ==> ts[k] != tag@,
    {
        if str_eq(tags[i].as_str(), tag) {
            assert(ts[i as int] == tag@);
            return true;
        }
    }
    false
}

/// The record for a discovered game claimed by a hand-added one.
fn claim(auto: &GameRecord, manual: &GameRecord) -> (r: GameRecord)
    ensures
        game_view(r) == claimed(game_view(*auto), game_view(*manual)),
{
    let mut tags = crate::text::clone_strings(&auto.tags);
    if !has_tag(&auto.tags, "manual-entry") {
        let ghost before = crate::platform::fs::string_views(tags@);
        tags.push(owned("manual-entry"));
        assert(crate::platform::fs::string_views(tags@) =~= before.push("manual-entry"@));
    }
    let r = GameRecord {
        id: manual.id.clone(),
        name: manual.name.clone(),
        game_root: crate::text::clone_opt(&auto.game_root),
        active_save_dir: auto.active_save_dir.clone(),
        source: GameSource::UserAdded,
        tags,
        created_at: auto.created_at,
        updated_at: manual.updated_at,
    };
    assert(game_view(r) =~= claimed(game_view(*auto), game_view(*manual)));
    r
}

/// `build_canonical_library`: the discovered games and the hand-added games
/// (as `list_manual_games` lists them) merged by identity, a hand-added game
/// claiming a discovered one with the same save folder; then listed by
/// lowercase name, with the ignored games left out.
pub fn build_canonical_library(discovery: DiscoverySummary, manual_games: Vec<GameRecord>, ignored: &IgnoredRegistry) -> (out: Vec<GameRecord>)
    ensures
        exists|merged: Seq<GameRecord>, sorted: Seq<GameRecord>|
            {
                &&& game_views(merged) == merged_games(discovery.discovered_games@, manual_games@)
                &&& sorted_by_name(merged, sorted)
                &&& out@ == unignored(ignored.entries@, sorted)
            },
{
    let ghost dv = game_views(discovery.discovered_games@);
    let ghost mv = game_views(manual_games@);
    let mut entries: Vec<GameRecord> = Vec::new();
    let mut keys: Vec<String> = Vec::new();
    let n = discovery.discovered_games.len();
    for i in 0..n
        invariant
            n == discovery.discovered_games@.len(),
            dv == game_views(discovery.discovered_games@),
            keys@.len() == entries@.len(),
            crate::platform::fs::string_views(keys@) == identity_keys(game_views(entries@)),
            game_views(entries@) == with_discovered(Seq::empty(), dv.take(i as int)),
    {
        let game = discovery.discovered_games[i].duplicate();
        assert(dv.take(i + 1).drop_last() =~= dv.take(i as int));
        assert(dv.take(i + 1).last() == game_view(game));
        let key = identity_key_for_path(game.active_save_dir.as_str());
        let ghost before = game_views(entries@);
        match find_key(&keys, key.as_str()) {
            Some(k) => {
                proof {
                    lemma_key_position(crate::platform::fs::string_views(keys@), key@);
                }
                entries.set(k, game);
                assert(game_views(entries@) =~= before.update(k as int, game_view(game)));
                assert(identity_keys(game_views(entries@)) =~= identity_keys(before));
            },
            None => {
                entries.push(game);
                let ghost kb = crate::platform::fs::string_views(keys@);
                keys.push(key);
                assert(game_views(entries@) =~= before.push(game_view(game)));
                assert(crate::platform::fs::string_views(keys@) =~= kb.push(path_key(game_view(game).active_save_dir)));
                assert(identity_keys(game_views(entries@)) =~= identity_keys(before).push(path_key(game_view(game).active_save_dir)));
            },
        }
    }
    assert(dv.take(n as int) =~= dv);
    let ghost start = game_views(entries@);
    let m = manual_games.len();
    for i in 0..m
        invariant
            m == manual_games@.len(),
            mv == game_views(manual_games@),
            keys@.len() == entries@.len(),
            crate::platform::fs::string_views(keys@) == identity_keys(game_views(entries@)),
            game_views(entries@) == with_manual(start, mv.take(i as int)),
    {
        let manual = &manual_games[i];
        assert(mv.take(i + 1).drop_last() =~= mv.take(i as int));
        assert(mv.take(i + 1).last() == game_view(*manual));
        let key = identity_key_for_path(manual.active_save_dir.as_str());
        let ghost before = game_views(entries@);
        match find_key(&keys, key.as_str()) {
            Some(k) => {
                proof {
                    lemma_key_position(crate::platform::fs::string_views(keys@), key@);
                }
                let updated = claim(&entries[k], manual);
                entries.set(k, updated);
                assert(game_views(entries@) =~= before.update(k as int, claimed(before[k as int], game_view(*manual))));
                assert(identity_keys(game_views(entries@)) =~= identity_keys(before));
            },
            None => {
                entries.push(manual.duplicate());
                let ghost kb = crate::platform::fs::string_views(keys@);
                keys.push(key);
                assert(game_views(entries@) =~= before.push(game_view(*manual)));
                assert(crate::platform::fs::string_views(keys@) =~= kb.push(path_key(game_view(*manual).active_save_dir)));
                assert(identity_keys(game_views(entries@)) =~= identity_keys(before).push(path_key(game_view(*manual).active_save_dir)));
            },
        }
    }
    assert(mv.take(m as int) =~= mv);
    let sorted = sort_by_name(&entries);
    let ghost sorted_view = sorted@;
    let out = filter_games(ignored, sorted);
    assert(game_views(entries@) == merged_games(discovery.discovered_games@, manual_games@));
    out
}

} // verus!
