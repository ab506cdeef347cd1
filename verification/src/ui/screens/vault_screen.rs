//! The vault screen: a game's vault saves, inspected and compared.

use vstd::prelude::*;

use crate::domain::conflict::{freshness_of, ConflictComparison};
use crate::domain::game::GameRecord;
use crate::domain::save::SaveRecord;
use crate::services::vault_service::{compare_saves as compare_records, vault_reason};
use crate::text::{concat3, owned, str_eq};

verus! {

/// The vault screen's title.
pub fn title() -> (t: &'static str)
    ensures
        t@ == "Vault"@,
{
    "Vault"
}

/// What the vault screen shows.
#[derive(Clone, Debug)]
pub struct VaultScreenState {
    pub game_name: String,
    pub saves: Vec<SaveRecord>,
    pub status_message: Option<String>,
    pub delete_confirmation_prompt: &'static str,
    pub compare_hint: &'static str,
}

/// The vault screen for a game and its vault saves (as
/// `list_vault_saves_for_game` lists them).
pub fn load_state(game: &GameRecord, saves: Vec<SaveRecord>) -> (s: VaultScreenState)
    ensures
        s.game_name == game.name,
        s.saves == saves,
        s.status_message is None,
        s.delete_confirmation_prompt@ == "Delete this save? This removes the file from your vault and cannot be undone."@,
        s.compare_hint@ == "Compare two saves before replacing or deleting to avoid mistakes."@,
{
    VaultScreenState {
        game_name: game.name.clone(),
        saves,
        status_message: None,
        delete_confirmation_prompt: "Delete this save? This removes the file from your vault and cannot be undone.",
        compare_hint: "Compare two saves before replacing or deleting to avoid mistakes.",
    }
}

/// A save the vault screen could not find.
pub struct SaveNotFound {
    pub save_id: String,
}

impl SaveNotFound {
    pub open spec fn text(&self) -> Seq<char> {
        "save '"@ + self.save_id@ + "' not found in vault"@
    }

    pub fn message(&self) -> (m: String)
        ensures
            m@ == self.text(),
    {
        concat3("save '", self.save_id.as_str(), "' not found in vault")
    }
}

/// The position of the first save with the id, or -1.
pub open spec fn save_index(saves: Seq<SaveRecord>, id: Seq<char>) -> int
    decreases saves.len(),
{
    if saves.len() == 0 {
        -1
    } else if saves[0].id@ == id {
        0
    } else {
        let r = save_index(saves.drop_first(), id);
        if r < 0 {
            -1
        } else {
            r + 1
        }
    }
}

/// The first save with the id.
pub fn inspect_save(saves: &Vec<SaveRecord>, save_id: &str) -> (r: Result<SaveRecord, SaveNotFound>)
    ensures
        r is Ok <==> save_index(saves@, save_id@) >= 0,
        r matches Ok(s) ==> s == saves@[save_index(saves@, save_id@)],
        r matches Err(e) ==> e.save_id@ == save_id@,
{
    let n = saves.len();
    let mut i: usize = 0;
    assert(saves@.skip(0) =~= saves@);
    while i < n
        invariant
            n == saves@.len(),
            i <= n,
            save_index(saves@, save_id@) == if save_index(saves@.skip(i as int), save_id@) < 0 {
                -1
            } else {
                save_index(saves@.skip(i as int), save_id@) + i
            },
        decreases n - i,
    {
        let ghost rest = saves@.skip(i as int);
        assert(rest.len() > 0);
        assert(rest.drop_first() =~= saves@.skip(i + 1));
        assert(rest[0] == saves@[i as int]);
        if str_eq(saves[i].id.as_str(), save_id) {
            return Ok(saves[i].duplicate());
        }
        i = i + 1;
    }
    assert(saves@.skip(n as int) =~= Seq::<SaveRecord>::empty());
    Err(SaveNotFound { save_id: owned(save_id) })
}

/// Compares two of the game's vault saves by id (`vault_service::compare_saves`).
pub fn compare_saves(saves: &Vec<SaveRecord>, source_id: &str, destination_id: &str) -> (r: Result<ConflictComparison, SaveNotFound>)
    ensures
        r is Ok <==> save_index(saves@, source_id@) >= 0 && save_index(saves@, destination_id@) >= 0,
        save_index(saves@, source_id@) < 0 ==> (r matches Err(e) && e.save_id@ == source_id@),
        save_index(saves@, source_id@) >= 0 && save_index(saves@, destination_id@) < 0 ==> (r matches Err(e)
            && e.save_id@ == destination_id@),
        r matches Ok(c) ==> {
            let s = saves@[save_index(saves@, source_id@)];
            let d = saves@[save_index(saves@, destination_id@)];
            &&& c.freshness == freshness_of(s.metadata, d.metadata)
            &&& c.reason@ == vault_reason(c.freshness)
            &&& c.source_path@ == s.absolute_path@
            &&& c.destination_path@ == d.absolute_path@
        },
{
    let source = match inspect_save(saves, source_id) {
        Ok(s) => s,
        Err(e) => return Err(e),
    };
    let destination = match inspect_save(saves, destination_id) {
        Ok(s) => s,
        Err(e) => return Err(e),
    };
    Ok(compare_records(&source, &destination))
}

} // verus!
