//! The decisions behind the shell's commands: what each checks, what it
//! changes in the library's registries, and how it assembles what the shell
//! shows. Reading and writing files is the caller's part.

use vstd::prelude::*;

use crate::api::dto::{
    conflict_dto_of, conflict_file_from_comparison, game_dto_of, game_to_dto, integrity_of, snapshot_dto_of,
    snapshot_to_dto, stamp_text, ConflictFileDto, GameDto, IntegrityStatusDto, LastSwapDto, LibraryStateDto,
    SnapshotDto,
};
use crate::api::swap_session::{session_to_dto, LastSwapSession};
use crate::domain::game::{same_game, GameRecord};
use crate::domain::save::{SaveMetadata, SaveOrigin, SaveRecord};
use crate::platform::fs::{join, join_text, PathContext, PathProbe};
use crate::services::discovery_service::{scan_save_files_in_directory, DiscoveredSaveFile, SaveFileFacts};
use crate::services::library_service::{add_manual_game, input_error, input_ok, manual_id, LibraryError, ManualGameRegistry};
use crate::services::vault_service::{
    annotate_save, current_field, has_any, lookup, merged, opt_text, AnnotationRegistry, DeleteRequest, DeleteTarget,
};
use crate::text::{
    ascii_lower, char_key, clone_opt, eq_ignore_ascii_case, lowercase, owned, str_eq, text_key, trim, trimmed,
    unicode_lowercase,
};
use crate::time::{parse_utc, parsed_utc, UtcTime};
use crate::platform::fs::file_name_of;
use crate::domain::conflict::ResolutionChoice;
use crate::api::dto::SaveMetadataDto;
use crate::domain::conflict::SaveFreshness;
use crate::services::library_service::game_index;
use crate::services::vault_service::{compare_saves, vault_reason};
use crate::services::swap_service::{destructive_swap_warning, read_active_save_record, SwapTransactionRequest, SwapTransactionResult};

verus! {

/// Why a command was refused.
pub enum CommandError {
    GameNameRequired,
    GamePathRequired,
    Library(LibraryError),
    AddedGameNotFound,
    NoSavesToBackUp,
    SaveFileMissing,
    DeleteNotVault,
    RestoreNotVault,
    NoSwapToRollBack,
    GameNotFound(String),
    SnapshotNotFound(String),
    GameMissingForSnapshot,
}

impl CommandError {
    /// The message shown for this error.
    pub open spec fn text(&self) -> Seq<char> {
        match self {
            CommandError::GameNameRequired => "Game name is required."@,
            CommandError::GamePathRequired => "Game path is required."@,
            CommandError::Library(e) => e.text(),
            CommandError::AddedGameNotFound => "added game not found in library"@,
            CommandError::NoSavesToBackUp => "No save files found to back up in the active save directory."@,
            CommandError::SaveFileMissing => "Save file not found on disk."@,
            CommandError::DeleteNotVault => "Only vault snapshots can be deleted from the vault."@,
            CommandError::RestoreNotVault => "Only vault snapshots can be restored to the active directory."@,
            CommandError::NoSwapToRollBack => "No swap to roll back."@,
            CommandError::GameNotFound(id) => "game '"@ + id@ + "' not found"@,
            CommandError::SnapshotNotFound(id) => "snapshot '"@ + id@ + "' not found"@,
            CommandError::GameMissingForSnapshot => "game missing for snapshot"@,
        }
    }

    pub fn message(&self) -> (m: String)
        ensures
            m@ == self.text(),
    {
        match self {
            CommandError::GameNameRequired => owned("Game name is required."),
            CommandError::GamePathRequired => owned("Game path is required."),
            CommandError::Library(e) => e.message(),
            CommandError::AddedGameNotFound => owned("added game not found in library"),
            CommandError::NoSavesToBackUp => owned("No save files found to back up in the active save directory."),
            CommandError::SaveFileMissing => owned("Save file not found on disk."),
            CommandError::DeleteNotVault => owned("Only vault snapshots can be deleted from the vault."),
            CommandError::RestoreNotVault => owned("Only vault snapshots can be restored to the active directory."),
            CommandError::NoSwapToRollBack => owned("No swap to roll back."),
            CommandError::GameNotFound(id) => crate::text::concat3("game '", id.as_str(), "' not found"),
            CommandError::SnapshotNotFound(id) => crate::text::concat3("snapshot '", id.as_str(), "' not found"),
            CommandError::GameMissingForSnapshot => owned("game missing for snapshot"),
        }
    }
}

/// The integrity checks made in this session: for each save id, whether its
/// file matched its recorded hash. The latest result for an id counts.
#[derive(Clone, Debug)]
pub struct IntegrityCache {
    pub results: Vec<(String, bool)>,
}

/// The latest result recorded for `id`.
pub open spec fn latest_result(results: Seq<(String, bool)>, id: Seq<char>) -> Option<bool>
    decreases results.len(),
{
    if results.len() == 0 {
        None
    } else if results.last().0@ == id {
        Some(results.last().1)
    } else {
        latest_result(results.drop_last(), id)
    }
}

impl IntegrityCache {
    /// A cache with no results.
    pub fn new() -> (c: IntegrityCache)
        ensures
            forall|id: Seq<char>| #[trigger] latest_result(c.results@, id) is None,
    {
        IntegrityCache { results: Vec::new() }
    }

    /// Records a check of `save_id`.
    pub fn set_verified(&mut self, save_id: &str, ok: bool)
        ensures
            latest_result(final(self).results@, save_id@) == Some(ok),
            forall|id: Seq<char>| id != save_id@ ==> #[trigger] latest_result(final(self).results@, id) == latest_result(old(self).results@, id),
    {
        let ghost before = self.results@;
        self.results.push((owned(save_id), ok));
        assert(self.results@.drop_last() =~= before);
    }

    /// What the shell shows for a save's integrity.
    pub fn integrity_for(&self, save_id: &str) -> (r: IntegrityStatusDto)
        ensures
            r == integrity_of(latest_result(self.results@, save_id@)),
    {
        let n = self.results.len();
        let mut i = n;
        assert(self.results@.take(n as int) =~= self.results@);
        while i > 0
            invariant
                i <= n == self.results@.len(),
                latest_result(self.results@, save_id@) == latest_result(self.results@.take(i as int), save_id@),
            decreases i,
        {
            assert(self.results@.take(i as int).drop_last() =~= self.results@.take(i - 1));
            if str_eq(self.results[i - 1].0.as_str(), save_id) {
                return crate::api::dto::integrity_from_verified(Some(self.results[i - 1].1));
            }
            i = i - 1;
        }
        crate::api::dto::integrity_from_verified(None)
    }
}

/// `add_game`: the trimmed name and folder must not be blank; then the game is
/// added by hand (see `add_manual_game`; `probe` reports on the resolved folder).
pub fn add_game(
    registry: &mut ManualGameRegistry,
    name: &str,
    active_save_dir: &str,
    ctx: &PathContext,
    probe: PathProbe,
) -> (r: Result<GameRecord, CommandError>)
    ensures
        trim(name@).len() == 0 ==> r matches Err(CommandError::GameNameRequired),
        trim(name@).len() > 0 && trim(active_save_dir@).len() == 0 ==> r matches Err(CommandError::GamePathRequired),
        trim(name@).len() > 0 && trim(active_save_dir@).len() > 0 ==> {
            &&& (r is Ok <==> input_ok(trim(name@), trim(active_save_dir@), *ctx, probe))
            &&& (r matches Err(e) ==> e matches CommandError::Library(le) && input_error(le, trim(name@), trim(active_save_dir@), *ctx, probe))
            &&& (r matches Ok(g) ==> g.id@ == manual_id(trim(trim(name@)), crate::platform::fs::resolved(trim(active_save_dir@), *ctx)))
        },
        r is Err ==> final(registry).games@ == old(registry).games@,
{
    let n = trimmed(name);
    let d = trimmed(active_save_dir);
    if n.unicode_len() == 0 {
        return Err(CommandError::GameNameRequired);
    }
    if d.unicode_len() == 0 {
        return Err(CommandError::GamePathRequired);
    }
    match add_manual_game(registry, n.as_str(), d.as_str(), ctx, probe) {
        Ok(g) => Ok(g),
        Err(e) => Err(CommandError::Library(e)),
    }
}

/// The checks `add_game` makes before the registry is read: a name and a
/// folder are required, and the resolved folder must be an existing directory.
/// `add_game` fails with the same error on the same inputs.
pub fn add_game_input(name: &str, active_save_dir: &str, ctx: &PathContext, probe: PathProbe) -> (r: Result<(), CommandError>)
    ensures
        trim(name@).len() == 0 ==> r matches Err(CommandError::GameNameRequired),
        trim(name@).len() > 0 && trim(active_save_dir@).len() == 0 ==> r matches Err(CommandError::GamePathRequired),
        trim(name@).len() > 0 && trim(active_save_dir@).len() > 0 ==> {
            &&& (r is Ok <==> input_ok(trim(name@), trim(active_save_dir@), *ctx, probe))
            &&& (r matches Err(e) ==> e matches CommandError::Library(le) && input_error(le, trim(name@), trim(active_save_dir@), *ctx, probe))
        },
{
    let n = trimmed(name);
    let d = trimmed(active_save_dir);
    if n.unicode_len() == 0 {
        return Err(CommandError::GameNameRequired);
    }
    if d.unicode_len() == 0 {
        return Err(CommandError::GamePathRequired);
    }
    match crate::services::library_service::checked_input(n.as_str(), d.as_str(), ctx, probe) {
        Ok(_) => Ok(()),
        Err(e) => Err(CommandError::Library(e)),
    }
}

/// The position of the first game shown whose save folder equals `dir`
/// without ASCII case, or -1.
pub open spec fn shown_game_index(games: Seq<GameDto>, dir: Seq<char>) -> int
    decreases games.len(),
{
    if games.len() == 0 {
        -1
    } else if ascii_lower(games[0].active_save_dir@) == ascii_lower(dir) {
        0
    } else {
        let r = shown_game_index(games.drop_first(), dir);
        if r < 0 {
            -1
        } else {
            r + 1
        }
    }
}

/// After `add_game`, the game the library now shows for the trimmed folder text
/// (compared without ASCII case).
pub fn find_added_game(library: &LibraryStateDto, active_save_dir: &str) -> (r: Result<usize, CommandError>)
    ensures
        r matches Ok(i) ==> i == shown_game_index(library.games@, trim(active_save_dir@)),
        r is Err <==> shown_game_index(library.games@, trim(active_save_dir@)) < 0,
        r matches Err(e) ==> e is AddedGameNotFound,
{
    let d = trimmed(active_save_dir);
    let games = &library.games;
    let n = games.len();
    let mut i: usize = 0;
    assert(games@.skip(0) =~= games@);
    while i < n
        invariant
            n == games@.len(),
            i <= n,
            games@ == library.games@,
            d@ == trim(active_save_dir@),
            shown_game_index(games@, d@) == if shown_game_index(games@.skip(i as int), d@) < 0 {
                -1
            } else {
                shown_game_index(games@.skip(i as int), d@) + i
            },
        decreases n - i,
    {
        let ghost rest = games@.skip(i as int);
        assert(rest.len() > 0);
        assert(rest.drop_first() =~= games@.skip(i + 1));
        assert(rest[0] == games@[i as int]);
        if eq_ignore_ascii_case(games[i].active_save_dir.as_str(), d.as_str()) {
            assert(shown_game_index(rest, d@) == 0);
            return Ok(i);
        }
        i = i + 1;
    }
    assert(games@.skip(n as int) =~= Seq::<GameDto>::empty());
    Err(CommandError::AddedGameNotFound)
}

/// `backup_game` after the backup ran: a backup that saved nothing is refused;
/// otherwise the first saved record is the backup shown, it takes the given
/// label and note (when either is given), and every saved record is marked
/// verified.
pub fn backup_game(
    records: &Vec<SaveRecord>,
    label: Option<String>,
    note: Option<String>,
    annotations: &mut AnnotationRegistry,
    cache: &mut IntegrityCache,
) -> (r: Result<usize, CommandError>)
    ensures
        r is Err <==> records@.len() == 0,
        r matches Err(e) ==> (e is NoSavesToBackUp) && final(annotations).entries@ == old(annotations).entries@
            && final(cache).results@ == old(cache).results@,
        r matches Ok(i) ==> i == 0,
        r is Ok ==> forall|k: int| 0 <= k < records@.len() ==> latest_result(final(cache).results@, #[trigger] records@[k].id@) == Some(true),
        r is Ok ==> forall|id: Seq<char>| (forall|k: int| 0 <= k < records@.len() ==> #[trigger] records@[k].id@ != id)
            ==> #[trigger] latest_result(final(cache).results@, id) == latest_result(old(cache).results@, id),
        r is Ok && label is None && note is None ==> final(annotations).entries@ == old(annotations).entries@,
        r is Ok && (label is Some || note is Some) ==> {
            let id = records@[0].id@;
            let current = lookup(old(annotations).entries@, id);
            let l = merged(label, current_field(current, 0));
            let n = merged(note, current_field(current, 1));
            let c = merged(None, current_field(current, 2));
            &&& match lookup(final(annotations).entries@, id) {
                Some(a) => has_any(l, n, c) && opt_text(a.label) == l && opt_text(a.note) == n
                    && opt_text(a.label_color) == c,
                None => !has_any(l, n, c),
            }
            &&& forall|other: Seq<char>| other != id ==> #[trigger] lookup(final(annotations).entries@, other) == lookup(old(annotations).entries@, other)
        },
{
    if records.len() == 0 {
        return Err(CommandError::NoSavesToBackUp);
    }
    if label.is_some() || note.is_some() {
        annotate_save(annotations, records[0].id.as_str(), label, note, None);
    }
    let n = records.len();
    let ghost start = cache.results@;
    for i in 0..n
        invariant
            n == records@.len(),
            forall|k: int| 0 <= k < i ==> latest_result(cache.results@, #[trigger] records@[k].id@) == Some(true),
            forall|id: Seq<char>| (forall|k: int| 0 <= k < i ==> #[trigger] records@[k].id@ != id)
                ==> #[trigger] latest_result(cache.results@, id) == latest_result(start, id),
    {
        cache.set_verified(records[i].id.as_str(), true);
        assert forall|k: int| 0 <= k < i + 1 implies latest_result(cache.results@, #[trigger] records@[k].id@) == Some(true) by {
            if records@[k].id@ != records@[i as int].id@ {
            }
        }
        assert forall|id: Seq<char>| (forall|k: int| 0 <= k < i + 1 ==> #[trigger] records@[k].id@ != id) implies
            #[trigger] latest_result(cache.results@, id) == latest_result(start, id) by {
            assert(records@[i as int].id@ != id);
        }
    }
    Ok(0)
}

/// Two recorded hashes agree unless both are known and differ.
pub open spec fn hashes_agree(recorded: Option<String>, fresh: Option<String>) -> bool {
    match (recorded, fresh) {
        (Some(a), Some(b)) => a@ == b@,
        _ => true,
    }
}

/// `verify_snapshot`: the save's file must exist; its fresh hash is held
/// against the recorded one (a missing hash on either side counts as a match),
/// and the result is recorded for the save.
pub fn verify_snapshot(
    cache: &mut IntegrityCache,
    snapshot: &SnapshotDto,
    file_exists: bool,
    fresh: &SaveMetadata,
) -> (r: Result<bool, CommandError>)
    ensures
        !file_exists ==> (r matches Err(e) && e is SaveFileMissing && final(cache).results@ == old(cache).results@),
        file_exists ==> r == Ok::<bool, CommandError>(hashes_agree(snapshot.metadata.sha256, fresh.sha256)),
        file_exists ==> latest_result(final(cache).results@, snapshot.id@) == Some(hashes_agree(snapshot.metadata.sha256, fresh.sha256)),
        file_exists ==> forall|id: Seq<char>| id != snapshot.id@ ==> #[trigger] latest_result(final(cache).results@, id) == latest_result(old(cache).results@, id),
{
    if !file_exists {
        return Err(CommandError::SaveFileMissing);
    }
    let ok = match (&snapshot.metadata.sha256, &fresh.sha256) {
        (Some(a), Some(b)) => str_eq(a.as_str(), b.as_str()),
        _ => true,
    };
    cache.set_verified(snapshot.id.as_str(), ok);
    Ok(ok)
}

/// The number of true values.
pub open spec fn count_true(s: Seq<bool>) -> nat
    decreases s.len(),
{
    if s.len() == 0 {
        0
    } else {
        count_true(s.drop_last()) + if s.last() { 1nat } else { 0nat }
    }
}

/// `verify_all_snapshots`: how many of the game's saves verified without error
/// (`outcomes` holds, per save, whether `verify_snapshot` succeeded).
pub fn verify_all_snapshots(outcomes: &Vec<bool>) -> (n: usize)
    ensures
        n == count_true(outcomes@),
{
    let len = outcomes.len();
    let mut count: usize = 0;
    for i in 0..len
        invariant
            len == outcomes@.len(),
            count == count_true(outcomes@.take(i as int)),
            count <= i,
    {
        assert(outcomes@.take(i + 1).drop_last() =~= outcomes@.take(i as int));
        if outcomes[i] {
            count = count + 1;
        }
    }
    assert(outcomes@.take(len as int) =~= outcomes@);
    count
}

/// `update_annotation`: the save's label and note are set (see `annotate_save`;
/// the colour is kept).
pub fn update_annotation(annotations: &mut AnnotationRegistry, snapshot_id: &str, label: Option<String>, note: Option<String>)
    ensures
        ({
            let current = lookup(old(annotations).entries@, snapshot_id@);
            let l = merged(label, current_field(current, 0));
            let n = merged(note, current_field(current, 1));
            let c = merged(None, current_field(current, 2));
            match lookup(final(annotations).entries@, snapshot_id@) {
                Some(a) => has_any(l, n, c) && opt_text(a.label) == l && opt_text(a.note) == n
                    && opt_text(a.label_color) == c,
                None => !has_any(l, n, c),
            }
        }),
        forall|other: Seq<char>|
            other != snapshot_id@ ==> #[trigger] lookup(final(annotations).entries@, other) == lookup(old(annotations).entries@, other),
{
    annotate_save(annotations, snapshot_id, label, note, None);
}

/// `delete_snapshot`: only a vault save can be deleted; the request names it,
/// targets the vault, and carries the phrase DELETE when the user confirmed.
pub fn delete_snapshot(snapshot: &SnapshotDto, confirmed: bool) -> (r: Result<DeleteRequest, CommandError>)
    ensures
        snapshot.origin != SaveOrigin::Vault ==> (r matches Err(e) && e is DeleteNotVault),
        snapshot.origin == SaveOrigin::Vault ==> (r matches Ok(req) && {
            &&& req.save_id == snapshot.id
            &&& req.absolute_path@ == snapshot.absolute_path@
            &&& req.target == DeleteTarget::Vault
            &&& req.confirmed == confirmed
            &&& (confirmed ==> (req.confirmation_phrase matches Some(p) && p@ == "DELETE"@))
            &&& (!confirmed ==> req.confirmation_phrase is None)
        }),
{
    if snapshot.origin != SaveOrigin::Vault {
        return Err(CommandError::DeleteNotVault);
    }
    let phrase = if confirmed {
        Some(owned("DELETE"))
    } else {
        None
    };
    Ok(DeleteRequest {
        save_id: snapshot.id.clone(),
        absolute_path: owned(snapshot.absolute_path.as_str()),
        target: DeleteTarget::Vault,
        confirmed,
        confirmation_phrase: phrase,
    })
}

/// `rollback_swap`: there must be a recorded swap to undo.
pub fn rollback_swap(session: Option<LastSwapSession>) -> (r: Result<LastSwapSession, CommandError>)
    ensures
        session is None ==> (r matches Err(e) && e is NoSwapToRollBack),
        session matches Some(s) ==> (r matches Ok(t) && t == s),
{
    match session {
        Some(s) => Ok(s),
        None => Err(CommandError::NoSwapToRollBack),
    }
}

/// `scan_save_directory`: the save-like files under the trimmed folder (the
/// probe and facts are those of that folder).
pub fn scan_save_directory(path: &str, probe: PathProbe, files: &Vec<SaveFileFacts>) -> (out: Vec<DiscoveredSaveFile>)
    ensures
        !(probe.exists && probe.is_dir) ==> out@.len() == 0,
        probe.exists && probe.is_dir ==> {
            &&& out@.len() == files@.len()
            &&& exists|order: Seq<usize>|
                {
                    &&& crate::sorting::is_permutation(order, files@.len())
                    &&& forall|i: int| 0 <= i < out@.len() ==> crate::services::discovery_service::describes_file(
                        #[trigger] out@[i],
                        files@[order[i] as int],
                        trim(path@),
                    )
                }
            &&& forall|i: int, j: int|
                0 <= i < j < out@.len() ==> !crate::sorting::key_lt(
                    crate::text::char_key(#[trigger] out@[j].relative_path@),
                    crate::text::char_key(#[trigger] out@[i].relative_path@),
                )
        },
{
    let root = trimmed(path);
    scan_save_files_in_directory(root.as_str(), probe, files)
}


/// `t` is what the shown text reads back as: nothing without text or when the
/// text does not parse; otherwise the instant it names.
pub open spec fn reads_back(text: Option<String>, t: Option<UtcTime>) -> bool {
    match t {
        Some(x) => text matches Some(s) && parsed_utc(s@) == Some((x.secs_of(), x.nanos_of())),
        None => text is None || (text matches Some(s) && parsed_utc(s@) is None),
    }
}

fn read_time(text: &Option<String>) -> (t: Option<UtcTime>)
    ensures
        reads_back(*text, t),
{
    match text {
        Some(s) => parse_utc(s.as_str()),
        None => None,
    }
}

/// `r` is the save record read back from a shown snapshot of `game`.
pub open spec fn record_from_dto(r: SaveRecord, game: GameRecord, s: SnapshotDto) -> bool {
    &&& r.id == s.id
    &&& r.game_id == game.id
    &&& r.file_name == s.file_name
    &&& r.absolute_path@ == s.absolute_path@
    &&& r.origin == s.origin
    &&& r.label == s.label
    &&& r.note == s.note
    &&& r.label_color is None
    &&& reads_back(s.metadata.modified_at, r.metadata.modified_at)
    &&& reads_back(s.metadata.created_at, r.metadata.created_at)
    &&& r.metadata.byte_size == s.metadata.byte_size
    &&& r.metadata.sha256 == s.metadata.sha256
    &&& reads_back(s.archived_at, r.archived_at)
}

/// The save record behind a shown snapshot (its times read back from text).
pub fn snapshot_record_from_dto(game: &GameRecord, snapshot: &SnapshotDto) -> (r: SaveRecord)
    ensures
        record_from_dto(r, *game, *snapshot),
{
    SaveRecord {
        id: snapshot.id.clone(),
        game_id: game.id.clone(),
        file_name: snapshot.file_name.clone(),
        absolute_path: owned(snapshot.absolute_path.as_str()),
        origin: snapshot.origin,
        label: clone_opt(&snapshot.label),
        note: clone_opt(&snapshot.note),
        label_color: None,
        metadata: SaveMetadata {
            modified_at: read_time(&snapshot.metadata.modified_at),
            created_at: read_time(&snapshot.metadata.created_at),
            byte_size: snapshot.metadata.byte_size,
            sha256: clone_opt(&snapshot.metadata.sha256),
        },
        archived_at: read_time(&snapshot.archived_at),
    }
}

/// The active file a vault snapshot would be restored over.
pub open spec fn active_path_for(game: GameRecord, s: SnapshotDto) -> Seq<char> {
    join_text(game.active_save_dir@, s.file_name@)
}

/// `destructive_restore_warning`: the warning for restoring the snapshot, which
/// names the active file it replaces when one exists (`active_metadata` is the
/// metadata of that file, present exactly when it is a file).
pub fn destructive_restore_warning(game: &GameRecord, snapshot: &SnapshotDto, active_metadata: Option<SaveMetadata>) -> (w: String)
    ensures
        w@ == match active_metadata {
            Some(_) => "Warning: swapping '"@ + snapshot.file_name@ + "' will replace active save '"@
                + match file_name_of(active_path_for(*game, *snapshot)) {
                    Some(f) => f,
                    None => "save.dat"@,
                }
                + "'. The active file is staged to vault first, but confirm before continuing."@,
            None => "Warning: swapping '"@ + snapshot.file_name@ + "' writes directly into the active save directory."@,
        },
{
    let vault_record = snapshot_record_from_dto(game, snapshot);
    let active_path = join(game.active_save_dir.as_str(), snapshot.file_name.as_str());
    match active_metadata {
        Some(m) => {
            let existing = read_active_save_record(game, active_path.as_str(), m);
            destructive_swap_warning(&vault_record, Some(&existing))
        },
        None => destructive_swap_warning(&vault_record, None),
    }
}

/// `restore_snapshot`'s request: only a vault snapshot can be restored; the
/// swap gets the game, the snapshot's record, the choice and the confirmation.
pub fn restore_snapshot(
    game: &GameRecord,
    snapshot: &SnapshotDto,
    resolution_choice: Option<ResolutionChoice>,
    confirmed_destructive: bool,
) -> (r: Result<SwapTransactionRequest, CommandError>)
    ensures
        snapshot.origin != SaveOrigin::Vault ==> (r matches Err(e) && e is RestoreNotVault),
        snapshot.origin == SaveOrigin::Vault ==> (r matches Ok(req) && {
            &&& same_game(req.game, *game)
            &&& record_from_dto(req.selected_vault_save, *game, *snapshot)
            &&& req.resolution_choice == resolution_choice
            &&& req.confirmed_destructive_action == confirmed_destructive
        }),
{
    if snapshot.origin != SaveOrigin::Vault {
        return Err(CommandError::RestoreNotVault);
    }
    Ok(SwapTransactionRequest {
        game: game.duplicate(),
        selected_vault_save: snapshot_record_from_dto(game, snapshot),
        resolution_choice,
        confirmed_destructive_action: confirmed_destructive,
    })
}

/// The session kept after a successful restore, stamped `restored_at`.
pub fn last_swap_session(game_id: &str, snapshot_id: &str, result: &SwapTransactionResult, restored_at: UtcTime) -> (s: LastSwapSession)
    ensures
        s.game_id@ == game_id@,
        s.snapshot_id@ == snapshot_id@,
        s.active_destination_path@ == result.active_destination_path@,
        s.staged_active_backup_path == result.staged_active_backup_path,
        s.restored_at == restored_at,
{
    LastSwapSession {
        game_id: owned(game_id),
        snapshot_id: owned(snapshot_id),
        active_destination_path: owned(result.active_destination_path.as_str()),
        staged_active_backup_path: clone_opt(&result.staged_active_backup_path),
        restored_at,
    }
}

/// `r` is the record of an active save found by a directory scan, with its
/// annotation applied.
pub open spec fn active_save_of(game: GameRecord, f: DiscoveredSaveFile, m: SaveMetadata, entries: Seq<crate::services::vault_service::SaveAnnotation>, r: SaveRecord) -> bool {
    &&& r.id@ == "active:"@ + game.id@ + ":"@ + unicode_lowercase(f.absolute_path@)
    &&& r.game_id == game.id
    &&& r.file_name == f.name
    &&& r.absolute_path@ == f.absolute_path@
    &&& r.origin == SaveOrigin::ActiveDirectory
    &&& r.metadata == m
    &&& r.archived_at is None
    &&& match lookup(entries, r.id@) {
        Some(a) => r.label == a.label && r.note == a.note && r.label_color == a.label_color,
        None => r.label is None && r.note is None && r.label_color is None,
    }
}

/// The records of the saves in a game's active folder (`files` as the folder
/// scan found them, `metadata` the metadata of each), annotated, in order.
pub fn list_active_saves(
    game: &GameRecord,
    files: &Vec<DiscoveredSaveFile>,
    metadata: Vec<SaveMetadata>,
    annotations: &AnnotationRegistry,
) -> (out: Vec<SaveRecord>)
    requires
        metadata@.len() == files@.len(),
    ensures
        out@.len() == files@.len(),
        forall|i: int| 0 <= i < out@.len() ==> active_save_of(*game, files@[i], metadata@[i], annotations.entries@, #[trigger] out@[i]),
{
    let n = files.len();
    let mut records: Vec<SaveRecord> = Vec::new();
    let mut idx: usize = 0;
    let ghost ms = metadata@;
    for m in it: metadata
        invariant
            n == files@.len(),
            ms == it.seq(),
            ms.len() == n,
            idx == it.index(),
            records@.len() == idx,
            forall|k: int| 0 <= k < idx ==> {
                &&& (#[trigger] records@[k]).id@ == "active:"@ + game.id@ + ":"@ + unicode_lowercase(files@[k].absolute_path@)
                &&& records@[k].game_id == game.id
                &&& records@[k].file_name == files@[k].name
                &&& records@[k].absolute_path@ == files@[k].absolute_path@
                &&& records@[k].origin == SaveOrigin::ActiveDirectory
                &&& records@[k].label is None && records@[k].note is None && records@[k].label_color is None
                &&& records@[k].metadata == ms[k]
                &&& records@[k].archived_at is None
            },
    {
        let f = &files[idx];
        let mut id = owned("active:");
        id.push_str(game.id.as_str());
        id.push_str(":");
        id.push_str(lowercase(f.absolute_path.as_str()).as_str());
        records.push(SaveRecord {
            id,
            game_id: game.id.clone(),
            file_name: f.name.clone(),
            absolute_path: owned(f.absolute_path.as_str()),
            origin: SaveOrigin::ActiveDirectory,
            label: None,
            note: None,
            label_color: None,
            metadata: m,
            archived_at: None,
        });
        idx = idx + 1;
    }
    let ghost recs = records@;
    let out = crate::services::vault_service::apply_annotations(records, annotations);
    assert forall|i: int| 0 <= i < out@.len() implies active_save_of(*game, files@[i], metadata@[i], annotations.entries@, #[trigger] out@[i]) by {
        assert(crate::services::vault_service::annotated(recs[i], out@[i], annotations.entries@));
    }
    out
}

/// The order of shown snapshots: newest modification text first, those
/// without one last.
pub open spec fn shown_time_key(t: Option<Seq<char>>) -> Seq<i128> {
    match t {
        None => seq![0i128],
        Some(s) => seq![1i128] + char_key(s),
    }
}

fn shown_time_key_exec(t: &Option<String>) -> (k: Vec<i128>)
    ensures
        k@ == shown_time_key(crate::api::dto::opt_view(*t)),
{
    match t {
        None => {
            let mut k: Vec<i128> = Vec::new();
            k.push(0);
            assert(k@ =~= seq![0i128]);
            k
        },
        Some(s) => {
            let tail = text_key(s.as_str());
            let mut k: Vec<i128> = Vec::new();
            k.push(1);
            let n = tail.len();
            for i in 0..n
                invariant
                    n == tail@.len(),
                    k@ == seq![1i128] + tail@.take(i as int),
            {
                k.push(tail[i]);
                assert(tail@.take(i + 1) =~= tail@.take(i as int).push(tail@[i as int]));
                assert(k@ =~= seq![1i128] + tail@.take(i + 1));
            }
            assert(tail@.take(n as int) =~= tail@);
            k
        },
    }
}

/// The files a shown save lists: its own name when its file exists.
pub open spec fn shown_files(r: SaveRecord, present: bool) -> Seq<String> {
    if present {
        seq![r.file_name]
    } else {
        Seq::empty()
    }
}

/// The snapshots shown for a game: each record (active saves, then vault
/// saves) with its integrity result and files, newest first (stably).
pub fn build_snapshots_for_game(records: Vec<SaveRecord>, present: &Vec<bool>, cache: &IntegrityCache) -> (out: Vec<SnapshotDto>)
    requires
        present@.len() == records@.len(),
    ensures
        exists|order: Seq<usize>|
            {
                &&& #[trigger] crate::sorting::is_permutation(order, records@.len())
                &&& crate::sorting::stably_sorted(
                    Seq::new(records@.len(), |i: int| shown_time_key(crate::api::dto::opt_stamp_text(records@[i].metadata.modified_at))),
                    order,
                    true,
                )
                &&& out@.len() == records@.len()
                &&& forall|i: int| 0 <= i < out@.len() ==> snapshot_dto_of(
                    #[trigger] out@[i],
                    records@[order[i] as int],
                    integrity_of(latest_result(cache.results@, records@[order[i] as int].id@)),
                    shown_files(records@[order[i] as int], present@[order[i] as int]),
                )
            },
{
    let n = records.len();
    let mut dtos: Vec<SnapshotDto> = Vec::new();
    let mut keys: Vec<Vec<i128>> = Vec::new();
    for i in 0..n
        invariant
            n == records@.len(),
            present@.len() == n,
            dtos@.len() == i,
            keys@.len() == i,
            forall|k: int| 0 <= k < i ==> snapshot_dto_of(
                #[trigger] dtos@[k],
                records@[k],
                integrity_of(latest_result(cache.results@, records@[k].id@)),
                shown_files(records@[k], present@[k]),
            ),
            forall|k: int| 0 <= k < i ==> #[trigger] keys@[k]@ == shown_time_key(crate::api::dto::opt_stamp_text(records@[k].metadata.modified_at)),
    {
        let r = &records[i];
        let integrity = cache.integrity_for(r.id.as_str());
        let mut files: Vec<String> = Vec::new();
        if present[i] {
            files.push(r.file_name.clone());
            assert(files@ =~= seq![r.file_name]);
        } else {
            assert(files@ =~= Seq::<String>::empty());
        }
        let d = snapshot_to_dto(r, integrity, files);
        keys.push(shown_time_key_exec(&d.metadata.modified_at));
        dtos.push(d);
    }
    let order = crate::sorting::stable_order(&keys, true);
    assert(crate::sorting::key_views(keys@) =~= Seq::new(records@.len(), |i: int| shown_time_key(crate::api::dto::opt_stamp_text(records@[i].metadata.modified_at))));
    let ghost ds = dtos@;
    let out = crate::sorting::apply_order(dtos, &order);
    assert forall|i: int| 0 <= i < out@.len() implies snapshot_dto_of(
        #[trigger] out@[i],
        records@[order@[i] as int],
        integrity_of(latest_result(cache.results@, records@[order@[i] as int].id@)),
        shown_files(records@[order@[i] as int], present@[order@[i] as int]),
    ) by {
        assert(out@[i] == ds[order@[i] as int]);
    }
    out
}


/// The greatest archive-time text among the shown vault snapshots (text order).
pub open spec fn latest_archive(snaps: Seq<SnapshotDto>) -> Option<Seq<char>>
    decreases snaps.len(),
{
    if snaps.len() == 0 {
        None
    } else {
        let best = latest_archive(snaps.drop_last());
        let s = snaps.last();
        if s.origin == SaveOrigin::Vault && s.archived_at is Some {
            let a = s.archived_at->0@;
            match best {
                Some(b) => if crate::sorting::key_lt(char_key(a), char_key(b)) {
                    best
                } else {
                    Some(a)
                },
                None => Some(a),
            }
        } else {
            best
        }
    }
}

/// When the game was last backed up: the greatest archive time among its
/// shown vault snapshots, read back from its text (none when there is none or
/// it does not parse).
pub fn last_backed_up_at(snapshots: &Vec<SnapshotDto>) -> (r: Option<UtcTime>)
    ensures
        r matches Some(t) ==> (latest_archive(snapshots@) matches Some(a) && parsed_utc(a) == Some((t.secs_of(), t.nanos_of()))),
        r is None ==> (latest_archive(snapshots@) is None || (latest_archive(snapshots@) matches Some(a) && parsed_utc(a) is None)),
{
    let n = snapshots.len();
    let mut best: Option<usize> = None;
    for i in 0..n
        invariant
            n == snapshots@.len(),
            best matches Some(b) ==> b < i && snapshots@[b as int].archived_at is Some,
            match best {
                Some(b) => latest_archive(snapshots@.take(i as int)) == Some(snapshots@[b as int].archived_at->0@),
                None => latest_archive(snapshots@.take(i as int)) is None,
            },
    {
        assert(snapshots@.take(i + 1).drop_last() =~= snapshots@.take(i as int));
        assert(snapshots@.take(i + 1).last() == snapshots@[i as int]);
        let s = &snapshots[i];
        if s.origin == SaveOrigin::Vault {
            match &s.archived_at {
                Some(a) => {
                    match best {
                        Some(b) => {
                            let ka = text_key(a.as_str());
                            let b_text = match &snapshots[b].archived_at {
                                Some(t) => t.as_str(),
                                None => "",
                            };
                            let kb = text_key(b_text);
                            if !crate::sorting::key_less(&ka, &kb) {
                                best = Some(i);
                            }
                        },
                        None => {
                            best = Some(i);
                        },
                    }
                },
                None => {},
            }
        }
    }
    assert(snapshots@.take(n as int) =~= snapshots@);
    match best {
        Some(b) => match &snapshots[b].archived_at {
            Some(t) => parse_utc(t.as_str()),
            None => None,
        },
        None => None,
    }
}

/// The freshness of a shown vault snapshot against the active file's
/// metadata, the snapshot's times read back from their text.
pub open spec fn shown_freshness(d: SaveMetadataDto, active: SaveMetadata) -> SaveFreshness {
    match (d.modified_at, active.modified_at) {
        (Some(text), Some(b)) => match parsed_utc(text@) {
            Some(a) => if (match (d.sha256, active.sha256) {
                (Some(x), Some(y)) => x@ == y@,
                _ => false,
            }) {
                SaveFreshness::Equal
            } else if b.secs_of() < a.0 || (b.secs_of() == a.0 && b.nanos_of() < a.1) {
                SaveFreshness::SourceNewer
            } else if a.0 < b.secs_of() || (a.0 == b.secs_of() && a.1 < b.nanos_of()) {
                SaveFreshness::DestinationNewer
            } else {
                SaveFreshness::Equal
            },
            None => SaveFreshness::Unknown,
        },
        _ => SaveFreshness::Unknown,
    }
}

/// `d` shows the conflict between a vault snapshot of `game` and the active
/// file it would replace.
pub open spec fn conflict_shown(game: GameRecord, s: SnapshotDto, active: SaveMetadata, d: ConflictFileDto) -> bool {
    let f = shown_freshness(s.metadata, active);
    &&& d.path@ == s.file_name@
    &&& d.freshness == f
    &&& d.active_snippet@ == "ACTIVE  path="@ + active_path_for(game, s) + "  "@ + vault_reason(f)
    &&& d.snapshot_snippet@ == "VAULT   path="@ + s.absolute_path@ + "  freshness="@ + crate::api::dto::freshness_text(f)
}

/// Whether snapshot `s` conflicts with the active file (metadata `active`,
/// present when the file exists): a vault snapshot whose file is not equivalent.
pub open spec fn conflicts(s: SnapshotDto, active: Option<SaveMetadata>) -> bool {
    s.origin == SaveOrigin::Vault && (active matches Some(m) && shown_freshness(s.metadata, m) != SaveFreshness::Equal)
}

/// The positions of the conflicting snapshots, in order.
pub open spec fn conflict_positions(snaps: Seq<SnapshotDto>, active: Seq<Option<SaveMetadata>>) -> Seq<int>
    decreases snaps.len(),
{
    if snaps.len() == 0 {
        Seq::empty()
    } else {
        let r = conflict_positions(snaps.drop_last(), active.take(snaps.len() - 1));
        if conflicts(snaps.last(), active[snaps.len() - 1]) {
            r.push(snaps.len() - 1)
        } else {
            r
        }
    }
}

/// `d` shows the conflict of snapshot `j`.
pub open spec fn conflict_at(game: GameRecord, snaps: Seq<SnapshotDto>, active: Seq<Option<SaveMetadata>>, j: int, d: ConflictFileDto) -> bool {
    &&& 0 <= j < snaps.len()
    &&& j < active.len()
    &&& match active[j] {
        Some(m) => conflict_shown(game, snaps[j], m, d),
        None => false,
    }
}

/// The conflicts of a game: for each vault snapshot whose active file exists
/// (`active[i]` holds the metadata of the active file of snapshot `i`, when it
/// is a file) and is not equivalent, the conflict as shown; and whether there
/// is any.
pub fn detect_conflicts(game: &GameRecord, snapshots: &Vec<SnapshotDto>, active: &Vec<Option<SaveMetadata>>) -> (r: (bool, Vec<ConflictFileDto>))
    requires
        active@.len() == snapshots@.len(),
    ensures
        r.1@.len() == conflict_positions(snapshots@, active@).len(),
        r.0 == (r.1@.len() > 0),
        forall|k: int| 0 <= k < r.1@.len() ==> conflict_at(*game, snapshots@, active@, conflict_positions(snapshots@, active@)[k], #[trigger] r.1@[k]),
{
    let n = snapshots.len();
    let mut out: Vec<ConflictFileDto> = Vec::new();
    for i in 0..n
        invariant
            n == snapshots@.len(),
            active@.len() == n,
            out@.len() == conflict_positions(snapshots@.take(i as int), active@.take(i as int)).len(),
            forall|k: int| 0 <= k < out@.len() ==> conflict_at(*game, snapshots@, active@, conflict_positions(snapshots@.take(i as int), active@.take(i as int))[k], #[trigger] out@[k]),
    {
        let ghost prev = conflict_positions(snapshots@.take(i as int), active@.take(i as int));
        assert(snapshots@.take(i + 1).drop_last() =~= snapshots@.take(i as int));
        assert(active@.take(i + 1).take(i as int) =~= active@.take(i as int));
        assert(snapshots@.take(i + 1).last() == snapshots@[i as int]);
        assert(active@.take(i + 1)[i as int] == active@[i as int]);
        let s = &snapshots[i];
        let mut found: Option<ConflictFileDto> = None;
        if s.origin == SaveOrigin::Vault {
            match &active[i] {
                Some(m) => {
                    let vault_record = snapshot_record_from_dto(game, s);
                    let active_path = join(game.active_save_dir.as_str(), s.file_name.as_str());
                    let active_record = read_active_save_record(game, active_path.as_str(), m.duplicate());
                    let comparison = compare_saves(&vault_record, &active_record);
                    assert(comparison.freshness == shown_freshness(s.metadata, *m));
                    if comparison.freshness != SaveFreshness::Equal {
                        found = Some(conflict_file_from_comparison(s.file_name.as_str(), &comparison));
                    }
                },
                None => {},
            }
        }
        proof {
            assert(conflict_positions(snapshots@.take(i + 1), active@.take(i + 1)) == if conflicts(
                snapshots@[i as int],
                active@[i as int],
            ) {
                prev.push(i as int)
            } else {
                prev
            });
            assert(found is Some <==> conflicts(snapshots@[i as int], active@[i as int]));
            assert(found matches Some(d) ==> (active@[i as int] matches Some(m) && conflict_shown(*game, snapshots@[i as int], m, d)));
        }
        let ghost old_out = out@;
        match found {
            Some(d) => {
                out.push(d);
            },
            None => {},
        }
        proof {
            let cur = conflict_positions(snapshots@.take(i + 1), active@.take(i + 1));
            assert forall|k: int| 0 <= k < out@.len() implies conflict_at(*game, snapshots@, active@, cur[k], #[trigger] out@[k]) by {
                if k < old_out.len() {
                    assert(out@[k] == old_out[k]);
                    assert(cur[k] == prev[k]);
                } else {
                    assert(cur[k] == i as int);
                }
            }
        }
    }
    assert(snapshots@.take(n as int) =~= snapshots@);
    assert(active@.take(n as int) =~= active@);
    let any = out.len() > 0;
    (any, out)
}

/// `find_game`: the first game with the id.
pub fn find_game(games: &Vec<GameRecord>, game_id: &str) -> (r: Result<usize, CommandError>)
    ensures
        r matches Ok(i) ==> i == game_index(games@, game_id@),
        r is Err <==> game_index(games@, game_id@) < 0,
        r matches Err(e) ==> (e matches CommandError::GameNotFound(x) && x@ == game_id@),
{
    match crate::services::library_service::find_game(games, game_id) {
        Some(i) => Ok(i),
        None => Err(CommandError::GameNotFound(owned(game_id))),
    }
}

/// The position of the first shown snapshot with the id, or -1.
pub open spec fn snapshot_index(snaps: Seq<SnapshotDto>, id: Seq<char>) -> int
    decreases snaps.len(),
{
    if snaps.len() == 0 {
        -1
    } else if snaps[0].id@ == id {
        0
    } else {
        let r = snapshot_index(snaps.drop_first(), id);
        if r < 0 {
            -1
        } else {
            r + 1
        }
    }
}

/// The position of the first game entry whose snapshots hold the id, or -1.
pub open spec fn holder_index(entries: Seq<(String, Vec<SnapshotDto>)>, id: Seq<char>) -> int
    decreases entries.len(),
{
    if entries.len() == 0 {
        -1
    } else if snapshot_index(entries[0].1@, id) >= 0 {
        0
    } else {
        let r = holder_index(entries.drop_first(), id);
        if r < 0 {
            -1
        } else {
            r + 1
        }
    }
}

/// The position of the first shown game with the id, or -1.
pub open spec fn shown_game_with_id(games: Seq<GameDto>, id: Seq<char>) -> int
    decreases games.len(),
{
    if games.len() == 0 {
        -1
    } else if games[0].id@ == id {
        0
    } else {
        let r = shown_game_with_id(games.drop_first(), id);
        if r < 0 {
            -1
        } else {
            r + 1
        }
    }
}

proof fn lemma_index_bounds(snaps: Seq<SnapshotDto>, id: Seq<char>)
    ensures
        -1 <= snapshot_index(snaps, id) < snaps.len(),
        snapshot_index(snaps, id) >= 0 ==> snaps[snapshot_index(snaps, id)].id@ == id,
    decreases snaps.len(),
{
    if snaps.len() > 0 && snaps[0].id@ != id {
        lemma_index_bounds(snaps.drop_first(), id);
    }
}

proof fn lemma_holder_bounds(entries: Seq<(String, Vec<SnapshotDto>)>, id: Seq<char>)
    ensures
        -1 <= holder_index(entries, id) < entries.len(),
        holder_index(entries, id) >= 0 ==> snapshot_index(entries[holder_index(entries, id)].1@, id) >= 0,
    decreases entries.len(),
{
    if entries.len() > 0 && snapshot_index(entries[0].1@, id) < 0 {
        lemma_holder_bounds(entries.drop_first(), id);
    }
}

proof fn lemma_shown_game_bounds(games: Seq<GameDto>, id: Seq<char>)
    ensures
        -1 <= shown_game_with_id(games, id) < games.len(),
        shown_game_with_id(games, id) >= 0 ==> games[shown_game_with_id(games, id)].id@ == id,
    decreases games.len(),
{
    if games.len() > 0 && games[0].id@ != id {
        lemma_shown_game_bounds(games.drop_first(), id);
    }
}

fn find_snapshot_in(snaps: &Vec<SnapshotDto>, id: &str) -> (r: Option<usize>)
    ensures
        r matches Some(i) ==> i == snapshot_index(snaps@, id@),
        r is None ==> snapshot_index(snaps@, id@) < 0,
{
    let n = snaps.len();
    let mut i: usize = 0;
    assert(snaps@.skip(0) =~= snaps@);
    while i < n
        invariant
            n == snaps@.len(),
            i <= n,
            snapshot_index(snaps@, id@) == if snapshot_index(snaps@.skip(i as int), id@) < 0 {
                -1
            } else {
                snapshot_index(snaps@.skip(i as int), id@) + i
            },
        decreases n - i,
    {
        let ghost rest = snaps@.skip(i as int);
        assert(rest.len() > 0);
        assert(rest.drop_first() =~= snaps@.skip(i + 1));
        assert(rest[0] == snaps@[i as int]);
        if str_eq(snaps[i].id.as_str(), id) {
            return Some(i);
        }
        i = i + 1;
    }
    assert(snaps@.skip(n as int) =~= Seq::<SnapshotDto>::empty());
    None
}

/// `find_game_and_snapshot`: the game entry holding the snapshot (the first one
/// that does), its shown game, and the game's record. Gives the positions of
/// the game record, the entry and the snapshot in it.
pub fn find_game_and_snapshot(library: &LibraryStateDto, games: &Vec<GameRecord>, snapshot_id: &str) -> (r: Result<(usize, usize, usize), CommandError>)
    ensures
        ({
            let entries = library.vault_by_game_id@;
            let h = holder_index(entries, snapshot_id@);
            &&& (h < 0 ==> (r matches Err(e) && (e matches CommandError::SnapshotNotFound(x) && x@ == snapshot_id@)))
            &&& (h >= 0 ==> {
                let gid = entries[h].0@;
                &&& (shown_game_with_id(library.games@, gid) < 0 ==> (r matches Err(e) && e is GameMissingForSnapshot))
                &&& (shown_game_with_id(library.games@, gid) >= 0 && game_index(games@, gid) < 0 ==> (r matches Err(e) && (e matches CommandError::GameNotFound(x) && x@ == gid)))
                &&& (shown_game_with_id(library.games@, gid) >= 0 && game_index(games@, gid) >= 0 ==> (r matches Ok((g, e, k)) && {
                    &&& g == game_index(games@, gid)
                    &&& e == h
                    &&& k == snapshot_index(entries[h].1@, snapshot_id@)
                }))
            })
        }),
{
    let entries = &library.vault_by_game_id;
    let n = entries.len();
    let mut h: usize = 0;
    assert(entries@.skip(0) =~= entries@);
    while h < n
        invariant
            n == entries@.len(),
            entries@ == library.vault_by_game_id@,
            h <= n,
            holder_index(entries@, snapshot_id@) == if holder_index(entries@.skip(h as int), snapshot_id@) < 0 {
                -1
            } else {
                holder_index(entries@.skip(h as int), snapshot_id@) + h
            },
        decreases n - h,
    {
        let ghost rest = entries@.skip(h as int);
        assert(rest.len() > 0);
        assert(rest.drop_first() =~= entries@.skip(h + 1));
        assert(rest[0] == entries@[h as int]);
        match find_snapshot_in(&entries[h].1, snapshot_id) {
            Some(k) => {
                assert(holder_index(rest, snapshot_id@) == 0);
                let gid = entries[h].0.as_str();
                let m = library.games.len();
                let mut j: usize = 0;
                assert(library.games@.skip(0) =~= library.games@);
                while j < m
                    invariant
                        m == library.games@.len(),
                        j <= m,
                        entries@ == library.vault_by_game_id@,
                        h < n == entries@.len(),
                        holder_index(entries@, snapshot_id@) == h,
                        k == snapshot_index(entries@[h as int].1@, snapshot_id@),
                        gid@ == entries@[h as int].0@,
                        shown_game_with_id(library.games@, gid@) == if shown_game_with_id(library.games@.skip(j as int), gid@) < 0 {
                            -1
                        } else {
                            shown_game_with_id(library.games@.skip(j as int), gid@) + j
                        },
                    decreases m - j,
                {
                    let ghost grest = library.games@.skip(j as int);
                    assert(grest.len() > 0);
                    assert(grest.drop_first() =~= library.games@.skip(j + 1));
                    assert(grest[0] == library.games@[j as int]);
                    if str_eq(library.games[j].id.as_str(), gid) {
                        assert(shown_game_with_id(grest, gid@) == 0);
                        return match find_game(games, gid) {
                            Ok(g) => Ok((g, h, k)),
                            Err(e) => Err(e),
                        };
                    }
                    j = j + 1;
                }
                assert(library.games@.skip(m as int) =~= Seq::<GameDto>::empty());
                return Err(CommandError::GameMissingForSnapshot);
            },
            None => {},
        }
        h = h + 1;
    }
    assert(entries@.skip(n as int) =~= Seq::<(String, Vec<SnapshotDto>)>::empty());
    Err(CommandError::SnapshotNotFound(owned(snapshot_id)))
}


/// The position of the first game entry with the id, or -1.
pub open spec fn entry_index(entries: Seq<(String, Vec<SnapshotDto>)>, id: Seq<char>) -> int
    decreases entries.len(),
{
    if entries.len() == 0 {
        -1
    } else if entries[0].0@ == id {
        0
    } else {
        let r = entry_index(entries.drop_first(), id);
        if r < 0 {
            -1
        } else {
            r + 1
        }
    }
}

proof fn lemma_entry_index(entries: Seq<(String, Vec<SnapshotDto>)>, id: Seq<char>)
    ensures
        -1 <= entry_index(entries, id) < entries.len(),
        entry_index(entries, id) >= 0 ==> entries[entry_index(entries, id)].0@ == id,
        forall|k: int| 0 <= k < entries.len() && (entry_index(entries, id) < 0 || k < entry_index(entries, id))
            ==> entries[k].0@ != id,
    decreases entries.len(),
{
    if entries.len() > 0 && entries[0].0@ != id {
        let rest = entries.drop_first();
        lemma_entry_index(rest, id);
        assert forall|k: int| 0 <= k < entries.len() && (entry_index(entries, id) < 0 || k < entry_index(entries, id))
            implies entries[k].0@ != id by {
            if k > 0 {
                assert(entries[k] == rest[k - 1]);
            }
        }
    }
}

/// The entry of a game's snapshots, if the library has one.
pub fn game_snapshots_index(vault_by_game_id: &Vec<(String, Vec<SnapshotDto>)>, game_id: &str) -> (r: Option<usize>)
    ensures
        r matches Some(i) ==> i == entry_index(vault_by_game_id@, game_id@),
        r is None ==> entry_index(vault_by_game_id@, game_id@) < 0,
{
    proof {
        lemma_entry_index(vault_by_game_id@, game_id@);
    }
    let n = vault_by_game_id.len();
    for i in 0..n
        invariant
            n == vault_by_game_id@.len(),
            forall|k: int| 0 <= k < i ==> vault_by_game_id@[k].0@ != game_id@,
            -1 <= entry_index(vault_by_game_id@, game_id@) < vault_by_game_id@.len(),
            entry_index(vault_by_game_id@, game_id@) >= 0 ==> vault_by_game_id@[entry_index(vault_by_game_id@, game_id@)].0@ == game_id@,
            forall|k: int| 0 <= k < vault_by_game_id@.len() && (entry_index(vault_by_game_id@, game_id@) < 0 || k < entry_index(vault_by_game_id@, game_id@))
                ==> vault_by_game_id@[k].0@ != game_id@,
    {
        if str_eq(vault_by_game_id[i].0.as_str(), game_id) {
            return Some(i);
        }
    }
    None
}

/// Puts a game's snapshots under its id, in place of an earlier list for the
/// same id (the last list put for an id is the one kept).
pub fn put_game_snapshots(vault_by_game_id: &mut Vec<(String, Vec<SnapshotDto>)>, game_id: String, snapshots: Vec<SnapshotDto>)
    ensures
        ({
            let i = entry_index(old(vault_by_game_id)@, game_id@);
            if i >= 0 {
                &&& final(vault_by_game_id)@.len() == old(vault_by_game_id)@.len()
                &&& forall|k: int| 0 <= k < old(vault_by_game_id)@.len() && k != i ==> #[trigger] final(vault_by_game_id)@[k] == old(vault_by_game_id)@[k]
                &&& final(vault_by_game_id)@[i].0 == old(vault_by_game_id)@[i].0
                &&& final(vault_by_game_id)@[i].1 == snapshots
            } else {
                final(vault_by_game_id)@ == old(vault_by_game_id)@.push((game_id, snapshots))
            }
        }),
{
    proof {
        lemma_entry_index(vault_by_game_id@, game_id@);
    }
    match game_snapshots_index(vault_by_game_id, game_id.as_str()) {
        Some(i) => {
            let key = vault_by_game_id[i].0.clone();
            assert(key == vault_by_game_id@[i as int].0);
            vault_by_game_id.set(i, (key, snapshots));
        },
        None => {
            vault_by_game_id.push((game_id, snapshots));
        },
    }
}

/// The entries after putting `snaps` under `id`: the entry with that id gets
/// them, or a new entry is appended.
pub open spec fn put_entry(
    entries: Seq<(String, Vec<SnapshotDto>)>,
    id: String,
    snaps: Vec<SnapshotDto>,
) -> Seq<(String, Vec<SnapshotDto>)> {
    let i = entry_index(entries, id@);
    if i >= 0 {
        entries.update(i, (entries[i].0, snaps))
    } else {
        entries.push((id, snaps))
    }
}

/// The snapshot lists of the games, put in turn under each game's id.
pub open spec fn vault_entries(games: Seq<GameRecord>, snaps: Seq<Vec<SnapshotDto>>) -> Seq<(String, Vec<SnapshotDto>)>
    decreases games.len(),
{
    if games.len() == 0 || snaps.len() == 0 {
        Seq::empty()
    } else {
        put_entry(vault_entries(games.drop_last(), snaps.drop_last()), games.last().id, snaps.last())
    }
}

/// The snapshot list shown for the game with `id`: its entry's, or none.
pub open spec fn shown_list(entries: Seq<(String, Vec<SnapshotDto>)>, id: Seq<char>) -> Seq<SnapshotDto> {
    let i = entry_index(entries, id);
    if i >= 0 {
        entries[i].1@
    } else {
        Seq::empty()
    }
}

/// `lb` is what `last_backed_up_at` gives for the list.
pub open spec fn backup_time_of(list: Seq<SnapshotDto>, lb: Option<UtcTime>) -> bool {
    &&& lb matches Some(t) ==> (latest_archive(list) matches Some(a) && parsed_utc(a) == Some((t.secs_of(), t.nanos_of())))
    &&& lb is None ==> (latest_archive(list) is None || (latest_archive(list) matches Some(a) && parsed_utc(a) is None))
}

/// `files` are the conflicts `detect_conflicts` finds in the list, in order.
pub open spec fn conflicts_of(
    game: GameRecord,
    list: Seq<SnapshotDto>,
    active: Seq<Option<SaveMetadata>>,
    files: Seq<ConflictFileDto>,
) -> bool {
    &&& files.len() == conflict_positions(list, active).len()
    &&& forall|k: int| 0 <= k < files.len() ==> conflict_at(game, list, active, conflict_positions(list, active)[k], #[trigger] files[k])
}

/// `d` is the game as the library shows it beside its snapshot list `list`
/// (`active` holding what the active folder has of each listed file).
pub open spec fn shown_game(d: GameDto, game: GameRecord, list: Seq<SnapshotDto>, active: Seq<Option<SaveMetadata>>) -> bool {
    exists|lb: Option<UtcTime>, files: Seq<ConflictFileDto>|
        #![trigger backup_time_of(list, lb), conflicts_of(game, list, active, files)]
        {
            &&& backup_time_of(list, lb)
            &&& conflicts_of(game, list, active, files)
            &&& game_dto_of(d, game, lb, files.len() > 0, files)
        }
}

/// The last swap as shown.
pub open spec fn swap_dto_of(d: LastSwapDto, s: LastSwapSession) -> bool {
    &&& d.game_id == s.game_id
    &&& d.snapshot_id == s.snapshot_id
    &&& d.previous_active_path@ == match s.staged_active_backup_path {
        Some(p) => p@,
        None => s.active_destination_path@,
    }
    &&& d.restored_at@ == stamp_text(s.restored_at)
}

/// Every game's snapshot list (`snapshots[i]` for game `i`), filed under the
/// game's id.
pub fn vault_lists(games: &Vec<GameRecord>, snapshots: Vec<Vec<SnapshotDto>>) -> (r: Vec<(String, Vec<SnapshotDto>)>)
    requires
        snapshots@.len() == games@.len(),
    ensures
        r@ == vault_entries(games@, snapshots@),
{
    let n = games.len();
    let ghost all = snapshots@;
    let mut rest = snapshots;
    let mut r: Vec<(String, Vec<SnapshotDto>)> = Vec::new();
    let mut i: usize = 0;
    while i < n
        invariant
            i <= n,
            n == games@.len(),
            n == all.len(),
            rest@ == all.subrange(i as int, n as int),
            r@ == vault_entries(games@.take(i as int), all.take(i as int)),
        decreases n - i,
    {
        let snaps = rest.remove(0);
        assert(snaps == all[i as int]);
        assert(rest@ =~= all.subrange(i + 1, n as int));
        let ghost before = r@;
        let id = games[i].id.clone();
        assert(id == games@[i as int].id);
        proof {
            lemma_entry_index(before, id@);
        }
        put_game_snapshots(&mut r, id, snaps);
        assert(games@.take(i + 1).drop_last() =~= games@.take(i as int));
        assert(all.take(i + 1).drop_last() =~= all.take(i as int));
        assert(r@ =~= put_entry(before, games@[i as int].id, all[i as int]));
        i = i + 1;
    }
    assert(games@.take(n as int) =~= games@);
    assert(all.take(n as int) =~= all);
    r
}

/// The library as the shell shows it: every game beside its snapshot list
/// (its entry in `vault_by_game_id`, or none), with the time of its latest
/// backup and the conflicts found between vault snapshots and the active
/// folder (`active[i]` holding what the active folder has of each file of game
/// `i`'s list), the snapshot lists themselves, and the last swap.
pub fn library_state(
    games: &Vec<GameRecord>,
    vault_by_game_id: Vec<(String, Vec<SnapshotDto>)>,
    active: &Vec<Vec<Option<SaveMetadata>>>,
    last_swap: Option<LastSwapSession>,
) -> (r: LibraryStateDto)
    requires
        active@.len() == games@.len(),
        forall|i: int|
            0 <= i < games@.len() ==> (#[trigger] active@[i])@.len() == shown_list(vault_by_game_id@, games@[i].id@).len(),
    ensures
        r.vault_by_game_id@ == vault_by_game_id@,
        r.games@.len() == games@.len(),
        forall|i: int|
            0 <= i < games@.len() ==> shown_game(
                #[trigger] r.games@[i],
                games@[i],
                shown_list(vault_by_game_id@, games@[i].id@),
                active@[i]@,
            ),
        last_swap is None ==> r.last_swap is None,
        last_swap matches Some(s) ==> (r.last_swap matches Some(d) && swap_dto_of(d, s)),
{
    let empty: Vec<SnapshotDto> = Vec::new();
    let mut dtos: Vec<GameDto> = Vec::new();
    let n = games.len();
    for i in 0..n
        invariant
            n == games@.len(),
            active@.len() == n,
            empty@.len() == 0,
            dtos@.len() == i,
            forall|q: int|
                0 <= q < n ==> (#[trigger] active@[q])@.len() == shown_list(vault_by_game_id@, games@[q].id@).len(),
            forall|k: int|
                0 <= k < i ==> shown_game(
                    #[trigger] dtos@[k],
                    games@[k],
                    shown_list(vault_by_game_id@, games@[k].id@),
                    active@[k]@,
                ),
    {
        let game = &games[i];
        proof {
            lemma_entry_index(vault_by_game_id@, game.id@);
        }
        let list: &Vec<SnapshotDto> = match game_snapshots_index(&vault_by_game_id, game.id.as_str()) {
            Some(j) => &vault_by_game_id[j].1,
            None => &empty,
        };
        assert(list@ == shown_list(vault_by_game_id@, games@[i as int].id@));
        let acts = &active[i];
        assert(acts@.len() == list@.len());
        let lb = last_backed_up_at(list);
        let (has_conflict, files) = detect_conflicts(game, list, acts);
        let ghost fs = files@;
        let d = game_to_dto(game, lb, has_conflict, files);
        assert(backup_time_of(list@, lb));
        assert(conflicts_of(*game, list@, acts@, fs));
        assert(game_dto_of(d, *game, lb, fs.len() > 0, fs));
        dtos.push(d);
    }
    let shown_swap = match &last_swap {
        Some(s) => Some(session_to_dto(s)),
        None => None,
    };
    LibraryStateDto { games: dtos, vault_by_game_id, last_swap: shown_swap }
}

} // verus!
