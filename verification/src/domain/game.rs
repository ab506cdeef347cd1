use vstd::prelude::*;

use crate::time::UtcTime;

verus! {

#[derive(Clone, Copy, Debug, PartialEq, Eq, Structural)]
pub enum GameSource {
    AutoDiscovered,
    UserAdded,
}

/// A game whose saves live in `active_save_dir`.
#[derive(Clone, Debug)]
pub struct GameRecord {
    pub id: String,
    pub name: String,
    pub game_root: Option<String>,
    pub active_save_dir: String,
    pub source: GameSource,
    pub tags: Vec<String>,
    pub created_at: UtcTime,
    pub updated_at: UtcTime,
}

/// Two records with the same fields (tags compared by content).
pub open spec fn same_game(a: GameRecord, b: GameRecord) -> bool {
    &&& a.id == b.id
    &&& a.name == b.name
    &&& a.game_root == b.game_root
    &&& a.active_save_dir == b.active_save_dir
    &&& a.source == b.source
    &&& a.tags@ == b.tags@
    &&& a.created_at == b.created_at
    &&& a.updated_at == b.updated_at
}

impl GameRecord {
    /// A field-by-field copy.
    pub fn duplicate(&self) -> (r: GameRecord)
        ensures
            same_game(r, *self),
    {
        let tags = crate::text::clone_strings(&self.tags);
        assert(tags@ == self.tags@);
        let r = GameRecord {
            id: self.id.clone(),
            name: self.name.clone(),
            game_root: crate::text::clone_opt(&self.game_root),
            active_save_dir: self.active_save_dir.clone(),
            source: self.source,
            tags,
            created_at: self.created_at,
            updated_at: self.updated_at,
        };
        r
    }
}

} // verus!
