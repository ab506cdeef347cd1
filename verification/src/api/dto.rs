//! The values handed to the desktop shell, and how library values become them.

use vstd::prelude::*;

use crate::domain::conflict::{ConflictComparison, SaveFreshness};
use crate::domain::game::{GameRecord, GameSource};
use crate::domain::save::{SaveMetadata, SaveOrigin, SaveRecord};
use crate::platform::fs::string_views;
use crate::services::blacklist_service::IgnoredEntry;
use crate::services::discovery_service::DiscoveredSaveFile;
use crate::text::{clone_opt, clone_strings, concat2, owned};
use crate::time::{rfc3339_text, to_rfc3339, UtcTime};

verus! {

#[derive(Clone, Debug)]
pub struct SaveMetadataDto {
    pub modified_at: Option<String>,
    pub created_at: Option<String>,
    pub byte_size: u64,
    pub sha256: Option<String>,
}

#[derive(Clone, Debug)]
pub struct ConflictFileDto {
    pub path: String,
    pub freshness: SaveFreshness,
    pub active_snippet: String,
    pub snapshot_snippet: String,
}

#[derive(Clone, Debug)]
pub struct GameDto {
    pub id: String,
    pub name: String,
    pub game_root: Option<String>,
    pub active_save_dir: String,
    pub source: GameSource,
    pub tags: Vec<String>,
    pub created_at: String,
    pub updated_at: String,
    pub last_backed_up_at: Option<String>,
    pub has_conflict: bool,
    pub conflict_files: Vec<ConflictFileDto>,
}

#[derive(Clone, Copy, Debug, PartialEq, Eq, Structural)]
pub enum IntegrityStatusDto {
    Verified,
    Corrupted,
    Unchecked,
}

#[derive(Clone, Debug)]
pub struct SnapshotDto {
    pub id: String,
    pub game_id: String,
    pub file_name: String,
    pub absolute_path: String,
    pub origin: SaveOrigin,
    pub label: Option<String>,
    pub note: Option<String>,
    pub metadata: SaveMetadataDto,
    pub archived_at: Option<String>,
    pub integrity: IntegrityStatusDto,
    pub label_color: String,
    pub file_count: u32,
    pub files: Vec<String>,
}

#[derive(Clone, Debug)]
pub struct LastSwapDto {
    pub game_id: String,
    pub snapshot_id: String,
    pub previous_active_path: String,
    pub restored_at: String,
}

/// The library as the shell shows it; each game id has one snapshot list.
#[derive(Clone, Debug)]
pub struct LibraryStateDto {
    pub games: Vec<GameDto>,
    pub vault_by_game_id: Vec<(String, Vec<SnapshotDto>)>,
    pub last_swap: Option<LastSwapDto>,
}

#[derive(Clone, Debug)]
pub struct AddGameResultDto {
    pub library: LibraryStateDto,
    pub game: GameDto,
    pub discovered_count: usize,
}

#[derive(Clone, Debug)]
pub struct BackupResultDto {
    pub library: LibraryStateDto,
    pub snapshot: SnapshotDto,
}

#[derive(Clone, Debug)]
pub struct RestoreResultDto {
    pub library: LibraryStateDto,
    pub last_swap: LastSwapDto,
}

#[derive(Clone, Debug)]
pub struct SnapshotResultDto {
    pub library: LibraryStateDto,
    pub snapshot: SnapshotDto,
}

#[derive(Clone, Debug)]
pub struct VerifyAllResultDto {
    pub library: LibraryStateDto,
    pub verified_count: usize,
}

#[derive(Clone, Debug)]
pub struct IgnoredEntryDto {
    pub path: String,
    pub name: Option<String>,
    pub ignored_at: String,
}

#[derive(Clone, Debug)]
pub struct IgnoredListDto {
    pub entries: Vec<IgnoredEntryDto>,
}

#[derive(Clone, Debug)]
pub struct IgnoreGameResultDto {
    pub library: LibraryStateDto,
    pub entry: IgnoredEntryDto,
}

/// The RFC 3339 text of an instant.
pub open spec fn stamp_text(t: UtcTime) -> Seq<char> {
    rfc3339_text(t.secs_of(), t.nanos_of())
}

/// The RFC 3339 text of an optional instant.
pub open spec fn opt_stamp_text(t: Option<UtcTime>) -> Option<Seq<char>> {
    match t {
        Some(x) => Some(stamp_text(x)),
        None => None,
    }
}

pub open spec fn opt_view(s: Option<String>) -> Option<Seq<char>> {
    match s {
        Some(x) => Some(x@),
        None => None,
    }
}

fn opt_stamp(t: &Option<UtcTime>) -> (r: Option<String>)
    ensures
        opt_view(r) == opt_stamp_text(*t),
{
    match t {
        Some(x) => Some(to_rfc3339(x)),
        None => None,
    }
}

/// `d` carries `m`, its instants as RFC 3339 text.
pub open spec fn metadata_dto_of(d: SaveMetadataDto, m: SaveMetadata) -> bool {
    &&& opt_view(d.modified_at) == opt_stamp_text(m.modified_at)
    &&& opt_view(d.created_at) == opt_stamp_text(m.created_at)
    &&& d.byte_size == m.byte_size
    &&& d.sha256 == m.sha256
}

/// The metadata as the shell shows it.
pub fn metadata_to_dto(metadata: &SaveMetadata) -> (d: SaveMetadataDto)
    ensures
        metadata_dto_of(d, *metadata),
{
    SaveMetadataDto {
        modified_at: opt_stamp(&metadata.modified_at),
        created_at: opt_stamp(&metadata.created_at),
        byte_size: metadata.byte_size,
        sha256: clone_opt(&metadata.sha256),
    }
}

/// The tag colours a save can get by default.
pub open spec fn label_colors() -> Seq<Seq<char>> {
    seq!["#00f5ff"@, "#ffb800"@, "#a855f7"@, "#22c55e"@, "#ff2d55"@, "#f472b6"@]
}

/// The sum of the bytes, wrapping at 2^32.
pub open spec fn byte_sum(bytes: Seq<u8>) -> u32
    decreases bytes.len(),
{
    if bytes.len() == 0 {
        0
    } else {
        ((byte_sum(bytes.drop_last()) + bytes.last()) % 0x1_0000_0000) as u32
    }
}

/// The default tag colour of a save id: the sum of its UTF-8 bytes (wrapping
/// at 2^32) picks one of the six colours.
pub open spec fn default_color(id: Seq<char>) -> Seq<char> {
    label_colors()[(byte_sum(vstd::utf8::encode_utf8(id)) % 6) as int]
}

/// Every save id gets one of the six tag colours, the same one each time.
pub proof fn law_default_color_in_palette(id: Seq<char>)
    ensures
        exists|k: int| 0 <= k < 6 && default_color(id) == #[trigger] label_colors()[k],
{
    let k = (byte_sum(vstd::utf8::encode_utf8(id)) % 6) as int;
    assert(0 <= k < 6);
    assert(default_color(id) == label_colors()[k]);
}

/// The default tag colour of a save id.
pub fn label_color_for_id(id: &str) -> (c: String)
    ensures
        c@ == default_color(id@),
{
    let bytes = id.as_bytes();
    let n = bytes.len();
    let mut hash: u32 = 0;
    for i in 0..n
        invariant
            n == bytes@.len(),
            bytes@ == vstd::utf8::encode_utf8(id@),
            hash == byte_sum(bytes@.take(i as int)),
    {
        assert(bytes@.take(i + 1).drop_last() =~= bytes@.take(i as int));
        let b = bytes[i];
        hash = hash.wrapping_add(b as u32);
    }
    assert(bytes@.take(n as int) =~= bytes@);
    let k = hash % 6;
    let c = if k == 0 {
        "#00f5ff"
    } else if k == 1 {
        "#ffb800"
    } else if k == 2 {
        "#a855f7"
    } else if k == 3 {
        "#22c55e"
    } else if k == 4 {
        "#ff2d55"
    } else {
        "#f472b6"
    };
    owned(c)
}

/// What an integrity check result shows: verified, corrupted, or unchecked
/// when there was none.
pub open spec fn integrity_of(verified: Option<bool>) -> IntegrityStatusDto {
    match verified {
        Some(true) => IntegrityStatusDto::Verified,
        Some(false) => IntegrityStatusDto::Corrupted,
        None => IntegrityStatusDto::Unchecked,
    }
}

pub fn integrity_from_verified(verified: Option<bool>) -> (r: IntegrityStatusDto)
    ensures
        r == integrity_of(verified),
{
    match verified {
        Some(true) => IntegrityStatusDto::Verified,
        Some(false) => IntegrityStatusDto::Corrupted,
        None => IntegrityStatusDto::Unchecked,
    }
}

/// A path's text, as the shell shows it.
pub fn path_to_string(path: &str) -> (r: String)
    ensures
        r@ == path@,
{
    owned(path)
}

/// `d` shows `record` with the given integrity and files; without a chosen
/// colour, the colour is the id's default.
pub open spec fn snapshot_dto_of(d: SnapshotDto, record: SaveRecord, integrity: IntegrityStatusDto, files: Seq<String>) -> bool {
    &&& d.id == record.id
    &&& d.game_id == record.game_id
    &&& d.file_name == record.file_name
    &&& d.absolute_path@ == record.absolute_path@
    &&& d.origin == record.origin
    &&& d.label == record.label
    &&& d.note == record.note
    &&& metadata_dto_of(d.metadata, record.metadata)
    &&& opt_view(d.archived_at) == opt_stamp_text(record.archived_at)
    &&& d.integrity == integrity
    &&& d.label_color@ == match record.label_color {
        Some(c) => c@,
        None => default_color(record.id@),
    }
    &&& d.file_count == files.len() as u32
    &&& d.files@ == files
}

/// A save as the shell shows it, with its integrity and files.
pub fn snapshot_to_dto(record: &SaveRecord, integrity: IntegrityStatusDto, files: Vec<String>) -> (d: SnapshotDto)
    ensures
        snapshot_dto_of(d, *record, integrity, files@),
{
    let label_color = match &record.label_color {
        Some(c) => c.clone(),
        None => label_color_for_id(record.id.as_str()),
    };
    let file_count = files.len() as u32;
    SnapshotDto {
        id: record.id.clone(),
        game_id: record.game_id.clone(),
        file_name: record.file_name.clone(),
        absolute_path: path_to_string(record.absolute_path.as_str()),
        origin: record.origin,
        label: clone_opt(&record.label),
        note: clone_opt(&record.note),
        metadata: metadata_to_dto(&record.metadata),
        archived_at: opt_stamp(&record.archived_at),
        integrity,
        label_color,
        file_count,
        files,
    }
}

/// How a freshness verdict is printed (its `Debug` text).
pub open spec fn freshness_text(f: SaveFreshness) -> Seq<char> {
    match f {
        SaveFreshness::SourceNewer => "SourceNewer"@,
        SaveFreshness::DestinationNewer => "DestinationNewer"@,
        SaveFreshness::Equal => "Equal"@,
        SaveFreshness::Unknown => "Unknown"@,
    }
}

fn freshness_name(f: SaveFreshness) -> (s: &'static str)
    ensures
        s@ == freshness_text(f),
{
    match f {
        SaveFreshness::SourceNewer => "SourceNewer",
        SaveFreshness::DestinationNewer => "DestinationNewer",
        SaveFreshness::Equal => "Equal",
        SaveFreshness::Unknown => "Unknown",
    }
}

/// A conflicting file as the shell shows it: the active side with the
/// comparison's reason, the vault side with the verdict.
pub open spec fn conflict_dto_of(d: ConflictFileDto, file_name: Seq<char>, c: ConflictComparison) -> bool {
    &&& d.path@ == file_name
    &&& d.freshness == c.freshness
    &&& d.active_snippet@ == "ACTIVE  path="@ + c.destination_path@ + "  "@ + c.reason@
    &&& d.snapshot_snippet@ == "VAULT   path="@ + c.source_path@ + "  freshness="@ + freshness_text(c.freshness)
}

pub fn conflict_file_from_comparison(file_name: &str, comparison: &ConflictComparison) -> (d: ConflictFileDto)
    ensures
        conflict_dto_of(d, file_name@, *comparison),
{
    let mut active = owned("ACTIVE  path=");
    active.push_str(comparison.destination_path.as_str());
    active.push_str("  ");
    active.push_str(comparison.reason.as_str());
    let mut snapshot = owned("VAULT   path=");
    snapshot.push_str(comparison.source_path.as_str());
    snapshot.push_str("  freshness=");
    snapshot.push_str(freshness_name(comparison.freshness));
    ConflictFileDto {
        path: owned(file_name),
        freshness: comparison.freshness,
        active_snippet: active,
        snapshot_snippet: snapshot,
    }
}

/// `d` shows `game` with its last backup time and conflicts.
pub open spec fn game_dto_of(
    d: GameDto,
    game: GameRecord,
    last_backed_up_at: Option<UtcTime>,
    has_conflict: bool,
    conflict_files: Seq<ConflictFileDto>,
) -> bool {
    &&& d.id == game.id
    &&& d.name == game.name
    &&& opt_view(d.game_root) == opt_view(game.game_root)
    &&& d.active_save_dir@ == game.active_save_dir@
    &&& d.source == game.source
    &&& d.tags@ == game.tags@
    &&& d.created_at@ == stamp_text(game.created_at)
    &&& d.updated_at@ == stamp_text(game.updated_at)
    &&& opt_view(d.last_backed_up_at) == opt_stamp_text(last_backed_up_at)
    &&& d.has_conflict == has_conflict
    &&& d.conflict_files@ == conflict_files
}

/// A game as the shell shows it.
pub fn game_to_dto(
    game: &GameRecord,
    last_backed_up_at: Option<UtcTime>,
    has_conflict: bool,
    conflict_files: Vec<ConflictFileDto>,
) -> (d: GameDto)
    ensures
        game_dto_of(d, *game, last_backed_up_at, has_conflict, conflict_files@),
{
    let game_root = match &game.game_root {
        Some(p) => Some(path_to_string(p.as_str())),
        None => None,
    };
    GameDto {
        id: game.id.clone(),
        name: game.name.clone(),
        game_root,
        active_save_dir: path_to_string(game.active_save_dir.as_str()),
        source: game.source,
        tags: clone_strings(&game.tags),
        created_at: to_rfc3339(&game.created_at),
        updated_at: to_rfc3339(&game.updated_at),
        last_backed_up_at: opt_stamp(&last_backed_up_at),
        has_conflict,
        conflict_files,
    }
}

/// The relative paths of found save files, in order.
pub fn discovered_to_relative_paths(files: &Vec<DiscoveredSaveFile>) -> (r: Vec<String>)
    ensures
        string_views(r@) == Seq::new(files@.len(), |i: int| files@[i].relative_path@),
{
    let mut r: Vec<String> = Vec::new();
    let n = files.len();
    for i in 0..n
        invariant
            n == files@.len(),
            r@.len() == i,
            forall|k: int| 0 <= k < i ==> #[trigger] r@[k]@ == files@[k].relative_path@,
    {
        r.push(files[i].relative_path.clone());
    }
    assert(string_views(r@) =~= Seq::new(files@.len(), |i: int| files@[i].relative_path@));
    r
}

/// An ignored folder as the shell shows it.
pub fn ignored_entry_to_dto(entry: &IgnoredEntry) -> (d: IgnoredEntryDto)
    ensures
        d.path@ == entry.path@,
        d.name == entry.name,
        d.ignored_at@ == stamp_text(entry.ignored_at),
{
    IgnoredEntryDto {
        path: path_to_string(entry.path.as_str()),
        name: clone_opt(&entry.name),
        ignored_at: to_rfc3339(&entry.ignored_at),
    }
}

} // verus!
