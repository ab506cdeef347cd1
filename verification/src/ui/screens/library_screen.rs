//! The library screen: the game list, filtered and sorted.

use vstd::prelude::*;

use crate::domain::game::{GameRecord, GameSource};
use crate::sorting::{apply_order, is_permutation, key_views, stable_order, stably_sorted};
use crate::text::{char_key, contains, has_substring, lowercase, unicode_lowercase};
use crate::time::time_key;

verus! {

#[derive(Clone, Copy, Debug, PartialEq, Eq, Structural)]
pub enum SortMode {
    NameAsc,
    NameDesc,
    UpdatedNewestFirst,
}

/// How the library list is narrowed and ordered.
#[derive(Clone, Debug)]
pub struct LibraryFilters {
    pub query: Option<String>,
    pub source: Option<GameSource>,
    pub sort_mode: SortMode,
}

impl Default for LibraryFilters {
    /// No query, every source, by name ascending.
    fn default() -> (f: LibraryFilters)
        ensures
            f.query is None,
            f.source is None,
            f.sort_mode == SortMode::NameAsc,
    {
        LibraryFilters { query: None, source: None, sort_mode: SortMode::NameAsc }
    }
}

/// What the library screen shows.
#[derive(Clone, Debug)]
pub struct LibraryScreenState {
    pub items: Vec<GameRecord>,
    pub filters: LibraryFilters,
    pub status_message: Option<String>,
    pub empty_state_hint: &'static str,
    pub primary_action_label: &'static str,
    pub help_text: &'static str,
}

/// A game the filters keep: its lowercase name or save folder contains the
/// lowercase query, and it has the chosen source.
pub open spec fn passes(g: GameRecord, f: LibraryFilters) -> bool {
    &&& match f.query {
        Some(q) => contains(unicode_lowercase(g.name@), unicode_lowercase(q@)) || contains(
            unicode_lowercase(g.active_save_dir@),
            unicode_lowercase(q@),
        ),
        None => true,
    }
    &&& match f.source {
        Some(s) => g.source == s,
        None => true,
    }
}

/// The games the filters keep, in order.
pub open spec fn kept_games(games: Seq<GameRecord>, f: LibraryFilters) -> Seq<GameRecord>
    decreases games.len(),
{
    if games.len() == 0 {
        Seq::empty()
    } else {
        let r = kept_games(games.drop_last(), f);
        if passes(games.last(), f) {
            r.push(games.last())
        } else {
            r
        }
    }
}

/// The key a sort mode orders by: the lowercase name, or the update time.
pub open spec fn sort_key(g: GameRecord, mode: SortMode) -> Seq<i128> {
    match mode {
        SortMode::UpdatedNewestFirst => time_key(g.updated_at),
        _ => char_key(unicode_lowercase(g.name@)),
    }
}

/// Whether a sort mode orders from the largest key down.
pub open spec fn descending(mode: SortMode) -> bool {
    mode != SortMode::NameAsc
}

/// `out` is the games the filters keep, stably sorted by the sort mode.
pub open spec fn sorted_selection(games: Seq<GameRecord>, filters: LibraryFilters, out: Seq<GameRecord>) -> bool {
    let kept = kept_games(games, filters);
    exists|order: Seq<usize>|
        {
            &&& #[trigger] is_permutation(order, kept.len())
            &&& stably_sorted(
                Seq::new(kept.len(), |i: int| sort_key(kept[i], filters.sort_mode)),
                order,
                descending(filters.sort_mode),
            )
            &&& out.len() == kept.len()
            &&& forall|i: int| 0 <= i < out.len() ==> #[trigger] out[i] == kept[order[i] as int]
        }
}

fn passes_exec(g: &GameRecord, f: &LibraryFilters) -> (r: bool)
    ensures
        r == passes(*g, *f),
{
    let by_query = match &f.query {
        Some(q) => {
            let needle = lowercase(q.as_str());
            let name = lowercase(g.name.as_str());
            let dir = lowercase(g.active_save_dir.as_str());
            has_substring(name.as_str(), needle.as_str()) || has_substring(dir.as_str(), needle.as_str())
        },
        None => true,
    };
    let by_source = match f.source {
        Some(s) => g.source == s,
        None => true,
    };
    by_query && by_source
}

fn sort_key_exec(g: &GameRecord, mode: SortMode) -> (k: Vec<i128>)
    ensures
        k@ == sort_key(*g, mode),
{
    match mode {
        SortMode::UpdatedNewestFirst => crate::time::time_key_exec(&g.updated_at),
        _ => {
            let lower = lowercase(g.name.as_str());
            crate::text::text_key(lower.as_str())
        },
    }
}

/// `apply_filters`: keeps the games that pass the query and source filters,
/// then sorts them stably by the sort mode (name ascending, name descending,
/// or most recently updated first).
pub fn apply_filters(games: Vec<GameRecord>, filters: &LibraryFilters) -> (out: Vec<GameRecord>)
    ensures
        sorted_selection(games@, *filters, out@),
{
    let ghost all = games@;
    let n = games.len();
    let mut kept: Vec<GameRecord> = Vec::new();
    let mut keys: Vec<Vec<i128>> = Vec::new();
    let mut idx: usize = 0;
    for g in it: games
        invariant
            n == all.len(),
            all == it.seq(),
            idx == it.index(),
            kept@ == kept_games(all.take(idx as int), *filters),
            keys@.len() == kept@.len(),
            forall|k: int| 0 <= k < keys@.len() ==> #[trigger] keys@[k]@ == sort_key(kept@[k], filters.sort_mode),
    {
        assert(all.take(idx + 1).drop_last() =~= all.take(idx as int));
        assert(all.take(idx + 1).last() == g);
        if passes_exec(&g, filters) {
            keys.push(sort_key_exec(&g, filters.sort_mode));
            kept.push(g);
        }
        idx = idx + 1;
    }
    assert(all.take(n as int) =~= all);
    let ghost kv = kept@;
    let order = stable_order(&keys, filters.sort_mode != SortMode::NameAsc);
    assert(key_views(keys@) =~= Seq::new(kv.len(), |i: int| sort_key(kv[i], filters.sort_mode)));
    apply_order(kept, &order)
}

/// The library screen for the canonical game list under the filters.
pub fn load_state(games: Vec<GameRecord>, filters: LibraryFilters) -> (s: LibraryScreenState)
    ensures
        s.filters.query == filters.query,
        s.filters.source == filters.source,
        s.filters.sort_mode == filters.sort_mode,
        s.status_message is None,
        s.empty_state_hint@ == "No games found yet. Add a game folder or update scan locations in Settings."@,
        s.primary_action_label@ == "Add Game Folder"@,
        s.help_text@ == "Tip: Use a clear game name so saves are easy to identify later."@,
        sorted_selection(games@, filters, s.items@),
{
    let items = apply_filters(games, &filters);
    LibraryScreenState {
        items,
        filters,
        status_message: None,
        empty_state_hint: "No games found yet. Add a game folder or update scan locations in Settings.",
        primary_action_label: "Add Game Folder",
        help_text: "Tip: Use a clear game name so saves are easy to identify later.",
    }
}

} // verus!
