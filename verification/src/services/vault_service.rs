//! The vault: per-save annotations, save comparison, delete safety checks, and
//! the records of backed-up and vaulted saves.

use vstd::prelude::*;

use crate::domain::conflict::{compute_freshness, freshness_of, ConflictComparison, SaveFreshness};
use crate::domain::game::GameRecord;
use crate::domain::save::{SaveMetadata, SaveOrigin, SaveRecord};
use crate::platform::fs::{
    file_name, file_name_of, files_of, join_text, listed_files, normalize_path, normalized, path_starts_with,
    starts_with_path, string_views, DirectoryListing, PathProbe,
};
use crate::services::metadata_service::{integrity_verdict, verify_metadata_pair, IntegrityError};
use crate::services::swap_service::{
    candidate_text, free_name_for, game_vault_dir, game_vault_dir_text, FreeNameSearch, SearchStep, UNIQUE_ATTEMPTS,
};
use crate::time::{now_utc, time_lt, UtcTime};
use crate::services::config_service::AppConfig;
use crate::sorting::{apply_order, is_permutation, key_views, stable_order, stably_sorted};
use crate::text::{lowercase, owned, str_eq, trim, trimmed, unicode_lowercase};

verus! {

/// A user's label, note and tag colour for one save.
#[derive(Clone, Debug)]
pub struct SaveAnnotation {
    pub save_id: String,
    pub label: Option<String>,
    pub note: Option<String>,
    pub label_color: Option<String>,
}

/// Every annotation the user made.
#[derive(Clone, Debug)]
pub struct AnnotationRegistry {
    pub entries: Vec<SaveAnnotation>,
}

pub open spec fn opt_text(o: Option<String>) -> Option<Seq<char>> {
    match o {
        Some(s) => Some(s@),
        None => None,
    }
}

/// Index of the first annotation of `id`, or -1.
pub open spec fn first_index(entries: Seq<SaveAnnotation>, id: Seq<char>) -> int
    decreases entries.len(),
{
    if entries.len() == 0 {
        -1
    } else if entries[0].save_id@ == id {
        0
    } else {
        let r = first_index(entries.drop_first(), id);
        if r < 0 {
            -1
        } else {
            r + 1
        }
    }
}

/// The annotation of `id` that lookups find: the first one.
pub open spec fn lookup(entries: Seq<SaveAnnotation>, id: Seq<char>) -> Option<SaveAnnotation> {
    let i = first_index(entries, id);
    if 0 <= i < entries.len() {
        Some(entries[i])
    } else {
        None
    }
}

pub proof fn lemma_first_index(entries: Seq<SaveAnnotation>, id: Seq<char>)
    ensures
        -1 <= first_index(entries, id) < entries.len(),
        first_index(entries, id) >= 0 ==> entries[first_index(entries, id)].save_id@ == id,
        forall|k: int| 0 <= k < entries.len() && (first_index(entries, id) < 0 || k < first_index(entries, id))
            ==> entries[k].save_id@ != id,
    decreases entries.len(),
{
    if entries.len() > 0 && entries[0].save_id@ != id {
        let rest = entries.drop_first();
        lemma_first_index(rest, id);
        assert forall|k: int| 0 <= k < entries.len() && (first_index(entries, id) < 0 || k < first_index(entries, id))
            implies entries[k].save_id@ != id by {
            if k > 0 {
                assert(entries[k] == rest[k - 1]);
            }
        }
    }
}

/// The annotations of every save but `id`, in order.
pub open spec fn without_id(entries: Seq<SaveAnnotation>, id: Seq<char>) -> Seq<SaveAnnotation>
    decreases entries.len(),
{
    if entries.len() == 0 {
        Seq::empty()
    } else {
        let r = without_id(entries.drop_last(), id);
        if entries.last().save_id@ == id {
            r
        } else {
            r.push(entries.last())
        }
    }
}

/// Looking up in a list with one more annotation at the end finds the old
/// result, or else the new annotation when it has the id.
pub proof fn lemma_lookup_push(s: Seq<SaveAnnotation>, x: SaveAnnotation, id: Seq<char>)
    ensures
        lookup(s.push(x), id) == if lookup(s, id) is Some {
            lookup(s, id)
        } else if x.save_id@ == id {
            Some(x)
        } else {
            None
        },
{
    let sp = s.push(x);
    lemma_first_index(s, id);
    lemma_first_index(sp, id);
    let i = first_index(s, id);
    let j = first_index(sp, id);
    if i >= 0 {
        assert(sp[i] == s[i]);
        if j >= 0 && j < i {
            assert(sp[j] == s[j]);
        }
        assert(j == i);
    } else {
        if j >= 0 && j < s.len() {
            assert(sp[j] == s[j]);
        }
        if x.save_id@ == id {
            assert(sp[s.len() as int] == x);
            assert(j == s.len());
        } else {
            assert(j == -1);
        }
    }
}

/// After removing `id`, nothing of `id` is found and every other id finds
/// what it found before.
pub proof fn lemma_lookup_without(e: Seq<SaveAnnotation>, id: Seq<char>, other: Seq<char>)
    ensures
        lookup(without_id(e, id), id) is None,
        other != id ==> lookup(without_id(e, id), other) == lookup(e, other),
    decreases e.len(),
{
    if e.len() == 0 {
        lemma_first_index(e, id);
        lemma_first_index(e, other);
    } else {
        let init = e.drop_last();
        let x = e.last();
        lemma_lookup_without(init, id, other);
        assert(e =~= init.push(x));
        lemma_lookup_push(init, x, other);
        if x.save_id@ != id {
            lemma_lookup_push(without_id(init, id), x, id);
            lemma_lookup_push(without_id(init, id), x, other);
        }
    }
}

/// Replacing the annotations of `id` by `a` makes lookups of `id` find `a`
/// and leaves every other id's lookup as it was.
pub proof fn lemma_lookup_replaced(e: Seq<SaveAnnotation>, id: Seq<char>, a: SaveAnnotation, other: Seq<char>)
    requires
        a.save_id@ == id,
    ensures
        lookup(without_id(e, id).push(a), id) == Some(a),
        other != id ==> lookup(without_id(e, id).push(a), other) == lookup(e, other),
{
    lemma_lookup_without(e, id, other);
    lemma_lookup_push(without_id(e, id), a, id);
    lemma_lookup_push(without_id(e, id), a, other);
}

/// A text as annotations store it: trimmed, and absent when nothing is left.
pub open spec fn cleaned(v: Seq<char>) -> Option<Seq<char>> {
    if trim(v).len() == 0 {
        None
    } else {
        Some(trim(v))
    }
}

/// A field after an update: a given value replaces (cleaned); an absent one
/// keeps the current value.
pub open spec fn merged(given: Option<String>, current: Option<String>) -> Option<Seq<char>> {
    match given {
        Some(v) => cleaned(v@),
        None => opt_text(current),
    }
}

pub open spec fn current_field(current: Option<SaveAnnotation>, which: int) -> Option<String> {
    match current {
        Some(a) => if which == 0 {
            a.label
        } else if which == 1 {
            a.note
        } else {
            a.label_color
        },
        None => None,
    }
}

fn cleaned_exec(v: &String) -> (r: Option<String>)
    ensures
        opt_text(r) == cleaned(v@),
{
    let t = trimmed(v.as_str());
    if t.as_str().is_empty() {
        None
    } else {
        Some(t)
    }
}

fn merge_field(given: Option<String>, current: &Option<String>) -> (r: Option<String>)
    ensures
        opt_text(r) == merged(given, *current),
{
    match given {
        Some(v) => cleaned_exec(&v),
        None => crate::text::clone_opt(current),
    }
}

fn find_first(entries: &Vec<SaveAnnotation>, id: &str) -> (r: Option<usize>)
    ensures
        r matches Some(i) ==> i as int == first_index(entries@, id@),
        r is None ==> first_index(entries@, id@) == -1,
{
    proof {
        lemma_first_index(entries@, id@);
    }
    let n = entries.len();
    for i in 0..n
        invariant
            n == entries@.len(),
            -1 <= first_index(entries@, id@) < n,
            first_index(entries@, id@) >= 0 ==> entries@[first_index(entries@, id@)].save_id@ == id@,
            forall|k: int| 0 <= k < n && (first_index(entries@, id@) < 0 || k < first_index(entries@, id@))
                ==> entries@[k].save_id@ != id@,
            forall|k: int| 0 <= k < i ==> entries@[k].save_id@ != id@,
    {
        if str_eq(entries[i].save_id.as_str(), id) {
            return Some(i);
        }
    }
    None
}

fn remove_id(entries: Vec<SaveAnnotation>, id: &str) -> (r: Vec<SaveAnnotation>)
    ensures
        r@ == without_id(entries@, id@),
{
    let ghost all = entries@;
    let mut kept: Vec<SaveAnnotation> = Vec::new();
    let n = entries.len();
    let mut idx: usize = 0;
    for e in it: entries
        invariant
            n == all.len(),
            all == it.seq(),
            idx == it.index(),
            kept@ == without_id(all.take(idx as int), id@),
    {
        assert(all.take(idx + 1).drop_last() =~= all.take(idx as int));
        assert(all.take(idx + 1).last() == e);
        if !str_eq(e.save_id.as_str(), id) {
            kept.push(e);
        }
        idx = idx + 1;
    }
    assert(all.take(n as int) =~= all);
    kept
}

/// Whether the annotation a registry update produces for `id` has a field.
pub open spec fn has_any(l: Option<Seq<char>>, n: Option<Seq<char>>, c: Option<Seq<char>>) -> bool {
    l is Some || n is Some || c is Some
}

/// `annotate_save`: every annotation of `save_id` is replaced by one whose
/// label, note and colour are the given values (trimmed; blank clears) or,
/// where none is given, the current ones; the annotation is dropped when it
/// has no field left. Other saves' annotations keep their order and content.
pub fn annotate_save(
    registry: &mut AnnotationRegistry,
    save_id: &str,
    label: Option<String>,
    note: Option<String>,
    label_color: Option<String>,
)
    ensures
        ({
            let current = lookup(old(registry).entries@, save_id@);
            let l = merged(label, current_field(current, 0));
            let n = merged(note, current_field(current, 1));
            let c = merged(label_color, current_field(current, 2));
            let rest = without_id(old(registry).entries@, save_id@);
            if has_any(l, n, c) {
                &&& final(registry).entries@.len() == rest.len() + 1
                &&& final(registry).entries@.drop_last() == rest
                &&& final(registry).entries@.last().save_id@ == save_id@
                &&& opt_text(final(registry).entries@.last().label) == l
                &&& opt_text(final(registry).entries@.last().note) == n
                &&& opt_text(final(registry).entries@.last().label_color) == c
            } else {
                final(registry).entries@ == rest
            }
        }),
        ({
            let current = lookup(old(registry).entries@, save_id@);
            let l = merged(label, current_field(current, 0));
            let n = merged(note, current_field(current, 1));
            let c = merged(label_color, current_field(current, 2));
            match lookup(final(registry).entries@, save_id@) {
                Some(a) => has_any(l, n, c) && opt_text(a.label) == l && opt_text(a.note) == n
                    && opt_text(a.label_color) == c,
                None => !has_any(l, n, c),
            }
        }),
        forall|other: Seq<char>|
            other != save_id@ ==> #[trigger] lookup(final(registry).entries@, other) == lookup(
                old(registry).entries@,
                other,
            ),
{
    let ghost before = registry.entries@;
    let current = find_first(&registry.entries, save_id);
    proof {
        lemma_first_index(registry.entries@, save_id@);
    }
    let (cur_label, cur_note, cur_color) = match current {
        Some(i) => (
            crate::text::clone_opt(&registry.entries[i].label),
            crate::text::clone_opt(&registry.entries[i].note),
            crate::text::clone_opt(&registry.entries[i].label_color),
        ),
        None => (None, None, None),
    };
    let ghost cur = lookup(registry.entries@, save_id@);
    assert(cur_label == current_field(cur, 0));
    assert(cur_note == current_field(cur, 1));
    assert(cur_color == current_field(cur, 2));
    let final_label = merge_field(label, &cur_label);
    let final_note = merge_field(note, &cur_note);
    let final_color = merge_field(label_color, &cur_color);
    let mut entries: Vec<SaveAnnotation> = Vec::new();
    std::mem::swap(&mut entries, &mut registry.entries);
    let mut kept = remove_id(entries, save_id);
    if final_label.is_some() || final_note.is_some() || final_color.is_some() {
        let ghost rest = kept@;
        kept.push(
            SaveAnnotation {
                save_id: owned(save_id),
                label: final_label,
                note: final_note,
                label_color: final_color,
            },
        );
        assert(kept@.drop_last() =~= rest);
        assert(kept@ =~= rest.push(kept@.last()));
        proof {
            lemma_lookup_replaced(before, save_id@, kept@.last(), save_id@);
            assert forall|other: Seq<char>| other != save_id@ implies #[trigger] lookup(kept@, other)
                == lookup(before, other) by {
                lemma_lookup_replaced(before, save_id@, kept@.last(), other);
            }
        }
    } else {
        proof {
            lemma_lookup_without(before, save_id@, save_id@);
            assert forall|other: Seq<char>| other != save_id@ implies #[trigger] lookup(kept@, other)
                == lookup(before, other) by {
                lemma_lookup_without(before, save_id@, other);
            }
        }
    }
    registry.entries = kept;
}

/// Why an annotation change was refused.
#[derive(Clone, Debug)]
pub enum AnnotationError {
    EmptyLabelColor,
}

impl AnnotationError {
    /// The message shown for this error.
    pub fn message(&self) -> (m: String)
        ensures
            m@ == "label color cannot be empty"@,
    {
        owned("label color cannot be empty")
    }
}

/// `set_label_color`: a blank colour is refused; otherwise the first
/// annotation of `save_id` gets the trimmed colour, or a new annotation with
/// only the colour is added.
pub fn set_label_color(registry: &mut AnnotationRegistry, save_id: &str, label_color: &str) -> (r: Result<(), AnnotationError>)
    ensures
        r is Err <==> trim(label_color@).len() == 0,
        r is Err ==> final(registry).entries@ == old(registry).entries@,
        r is Ok ==> ({
            let i = first_index(old(registry).entries@, save_id@);
            if i >= 0 {
                &&& final(registry).entries@.len() == old(registry).entries@.len()
                &&& forall|k: int| 0 <= k < old(registry).entries@.len() && k != i
                    ==> #[trigger] final(registry).entries@[k] == old(registry).entries@[k]
                &&& final(registry).entries@[i].save_id == old(registry).entries@[i].save_id
                &&& final(registry).entries@[i].label == old(registry).entries@[i].label
                &&& final(registry).entries@[i].note == old(registry).entries@[i].note
                &&& opt_text(final(registry).entries@[i].label_color) == Some(trim(label_color@))
            } else {
                &&& final(registry).entries@.drop_last() == old(registry).entries@
                &&& final(registry).entries@.len() == old(registry).entries@.len() + 1
                &&& final(registry).entries@.last().save_id@ == save_id@
                &&& final(registry).entries@.last().label is None
                &&& final(registry).entries@.last().note is None
                &&& opt_text(final(registry).entries@.last().label_color) == Some(trim(label_color@))
            }
        }),
        r is Ok ==> (lookup(final(registry).entries@, save_id@) matches Some(a) && opt_text(a.label_color)
            == Some(trim(label_color@))),
        r is Ok ==> forall|other: Seq<char>|
            other != save_id@ ==> #[trigger] lookup(final(registry).entries@, other) == lookup(
                old(registry).entries@,
                other,
            ),
{
    let color = trimmed(label_color);
    if color.as_str().is_empty() {
        return Err(AnnotationError::EmptyLabelColor);
    }
    proof {
        lemma_first_index(registry.entries@, save_id@);
    }
    match find_first(&registry.entries, save_id) {
        Some(i) => {
            let ghost before = registry.entries@;
            let old_entry = &registry.entries[i];
            let updated = SaveAnnotation {
                save_id: old_entry.save_id.clone(),
                label: crate::text::clone_opt(&old_entry.label),
                note: crate::text::clone_opt(&old_entry.note),
                label_color: Some(color),
            };
            registry.entries.set(i, updated);
            assert forall|k: int| 0 <= k < before.len() && k != i implies #[trigger] registry.entries@[k]
                == before[k] by {}
            proof {
                let after = registry.entries@;
                lemma_first_index(after, save_id@);
                let j = first_index(after, save_id@);
                if j >= 0 && j < i {
                    assert(after[j] == before[j]);
                }
                assert(j == i);
                assert forall|other: Seq<char>| other != save_id@ implies #[trigger] lookup(after, other)
                    == lookup(before, other) by {
                    lemma_first_index(after, other);
                    lemma_first_index(before, other);
                    let a = first_index(after, other);
                    let b = first_index(before, other);
                    if a >= 0 {
                        assert(a != i);
                        assert(after[a] == before[a]);
                    }
                    if b >= 0 {
                        assert(b != i);
                        assert(after[b] == before[b]);
                    }
                    if a >= 0 && b >= 0 {
                        assert(a == b);
                    } else if a >= 0 {
                    } else if b >= 0 {
                    }
                }
            }
        },
        None => {
            let ghost before = registry.entries@;
            registry.entries.push(
                SaveAnnotation { save_id: owned(save_id), label: None, note: None, label_color: Some(color) },
            );
            assert(registry.entries@.drop_last() =~= before);
            assert(registry.entries@ =~= before.push(registry.entries@.last()));
            proof {
                lemma_lookup_push(before, registry.entries@.last(), save_id@);
                assert forall|other: Seq<char>| other != save_id@ implies #[trigger] lookup(
                    registry.entries@,
                    other,
                ) == lookup(before, other) by {
                    lemma_lookup_push(before, registry.entries@.last(), other);
                }
            }
        },
    }
    Ok(())
}

/// `clear_annotation`: drops every annotation of `save_id`.
pub fn clear_annotation(registry: &mut AnnotationRegistry, save_id: &str)
    ensures
        final(registry).entries@ == without_id(old(registry).entries@, save_id@),
        lookup(final(registry).entries@, save_id@) is None,
        forall|other: Seq<char>|
            other != save_id@ ==> #[trigger] lookup(final(registry).entries@, other) == lookup(
                old(registry).entries@,
                other,
            ),
{
    let ghost before = registry.entries@;
    let mut entries: Vec<SaveAnnotation> = Vec::new();
    std::mem::swap(&mut entries, &mut registry.entries);
    registry.entries = remove_id(entries, save_id);
    proof {
        lemma_lookup_without(before, save_id@, save_id@);
        assert forall|other: Seq<char>| other != save_id@ implies #[trigger] lookup(registry.entries@, other)
            == lookup(before, other) by {
            lemma_lookup_without(before, save_id@, other);
        }
    }
}

/// A record after annotations apply: the first annotation of its id supplies
/// label, note and colour; without one the record is unchanged.
pub open spec fn annotated(record: SaveRecord, out: SaveRecord, entries: Seq<SaveAnnotation>) -> bool {
    match lookup(entries, record.id@) {
        Some(a) => {
            &&& out.label == a.label
            &&& out.note == a.note
            &&& out.label_color == a.label_color
            &&& out.id == record.id
            &&& out.game_id == record.game_id
            &&& out.file_name == record.file_name
            &&& out.absolute_path == record.absolute_path
            &&& out.origin == record.origin
            &&& out.metadata == record.metadata
            &&& out.archived_at == record.archived_at
        },
        None => out == record,
    }
}

/// `apply_annotations`.
pub fn apply_annotations(records: Vec<SaveRecord>, registry: &AnnotationRegistry) -> (out: Vec<SaveRecord>)
    ensures
        out@.len() == records@.len(),
        forall|i: int| 0 <= i < out@.len() ==> annotated(records@[i], #[trigger] out@[i], registry.entries@),
{
    let ghost all = records@;
    let n = records.len();
    let mut out: Vec<SaveRecord> = Vec::new();
    let mut idx: usize = 0;
    for r in it: records
        invariant
            n == all.len(),
            all == it.seq(),
            idx == it.index(),
            out@.len() == idx,
            forall|i: int| 0 <= i < idx ==> annotated(all[i], #[trigger] out@[i], registry.entries@),
    {
        let mut rec = r;
        proof {
            lemma_first_index(registry.entries@, rec.id@);
        }
        match find_first(&registry.entries, rec.id.as_str()) {
            Some(i) => {
                let a = &registry.entries[i];
                rec.label = crate::text::clone_opt(&a.label);
                rec.note = crate::text::clone_opt(&a.note);
                rec.label_color = crate::text::clone_opt(&a.label_color);
            },
            None => {},
        }
        out.push(rec);
        idx = idx + 1;
    }
    out
}

pub open spec fn vault_reason(f: SaveFreshness) -> Seq<char> {
    match f {
        SaveFreshness::Equal => "timestamps and/or hashes indicate files are equivalent"@,
        SaveFreshness::SourceNewer => "source file has newer modification timestamp"@,
        SaveFreshness::DestinationNewer => "destination file has newer modification timestamp"@,
        SaveFreshness::Unknown => "insufficient metadata to determine freshness"@,
    }
}

/// `compare_saves`: which of two saves is newer, with the reason.
pub fn compare_saves(source: &SaveRecord, destination: &SaveRecord) -> (c: ConflictComparison)
    ensures
        c.freshness == freshness_of(source.metadata, destination.metadata),
        c.reason@ == vault_reason(c.freshness),
        c.source_path@ == source.absolute_path@,
        c.destination_path@ == destination.absolute_path@,
        c.source_metadata == source.metadata,
        c.destination_metadata == destination.metadata,
{
    let freshness = compute_freshness(&source.metadata, &destination.metadata);
    let reason = match freshness {
        SaveFreshness::Equal => owned("timestamps and/or hashes indicate files are equivalent"),
        SaveFreshness::SourceNewer => owned("source file has newer modification timestamp"),
        SaveFreshness::DestinationNewer => owned("destination file has newer modification timestamp"),
        SaveFreshness::Unknown => owned("insufficient metadata to determine freshness"),
    };
    ConflictComparison {
        source_path: source.absolute_path.clone(),
        destination_path: destination.absolute_path.clone(),
        source_metadata: source.metadata.duplicate(),
        destination_metadata: destination.metadata.duplicate(),
        freshness,
        reason,
    }
}

#[derive(Clone, Copy, Debug, PartialEq, Eq, Structural)]
pub enum DeleteTarget {
    ActiveDirectory,
    Vault,
}

#[derive(Clone, Debug)]
pub struct DeleteRequest {
    pub save_id: String,
    pub absolute_path: String,
    pub target: DeleteTarget,
    pub confirmed: bool,
    pub confirmation_phrase: Option<String>,
}

/// Why a delete was refused.
#[derive(Clone, Debug)]
pub enum DeleteError {
    ConfirmationRequired,
    PhraseMismatch,
    Missing(String),
    NotAFile(String),
    OutsideVault(String),
}

impl DeleteError {
    pub open spec fn text(self) -> Seq<char> {
        match self {
            DeleteError::ConfirmationRequired => "delete confirmation required by safety settings"@,
            DeleteError::PhraseMismatch => "delete blocked: confirmation phrase must be exactly DELETE"@,
            DeleteError::Missing(p) => "cannot delete missing save at "@ + p@,
            DeleteError::NotAFile(p) => "delete target is not a file: "@ + p@,
            DeleteError::OutsideVault(root) => "refusing to delete: target is outside configured vault root ("@
                + root@ + ")"@,
        }
    }

    /// The message shown for this error.
    pub fn message(&self) -> (m: String)
        ensures
            m@ == self.text(),
    {
        match self {
            DeleteError::ConfirmationRequired => owned("delete confirmation required by safety settings"),
            DeleteError::PhraseMismatch => owned(
                "delete blocked: confirmation phrase must be exactly DELETE",
            ),
            DeleteError::Missing(p) => crate::text::concat2("cannot delete missing save at ", p.as_str()),
            DeleteError::NotAFile(p) => crate::text::concat2("delete target is not a file: ", p.as_str()),
            DeleteError::OutsideVault(root) => crate::text::concat3(
                "refusing to delete: target is outside configured vault root (",
                root.as_str(),
                ")",
            ),
        }
    }
}

/// The confirmation phrase, trimmed, is exactly "DELETE" (an absent phrase is empty).
pub open spec fn phrase_confirms(phrase: Option<String>) -> bool {
    match phrase {
        Some(p) => trim(p@) == "DELETE"@,
        None => trim(Seq::<char>::empty()) == "DELETE"@,
    }
}

/// The target lies under the vault root: after lowercasing and normalizing
/// both, the root's path components begin the target's (so `/vault2/a.sav` and
/// `/vault/../a.sav` are not under `/vault`).
pub open spec fn inside_vault(path: Seq<char>, vault_root: Seq<char>) -> bool {
    path_starts_with(normalized(unicode_lowercase(path)), normalized(unicode_lowercase(vault_root)))
}

/// The verdict of the delete safety checks, in order.
pub open spec fn delete_verdict(request: DeleteRequest, config: AppConfig, probe: PathProbe) -> Result<(), DeleteError> {
    if config.safety.require_confirmation_for_delete && !request.confirmed {
        Err(DeleteError::ConfirmationRequired)
    } else if config.safety.require_confirmation_for_delete && !phrase_confirms(request.confirmation_phrase) {
        Err(DeleteError::PhraseMismatch)
    } else if !probe.exists {
        Err(DeleteError::Missing(request.absolute_path))
    } else if !probe.is_file {
        Err(DeleteError::NotAFile(request.absolute_path))
    } else if request.target == DeleteTarget::Vault && !inside_vault(request.absolute_path@, config.vault_root@) {
        Err(DeleteError::OutsideVault(config.vault_root))
    } else {
        Ok(())
    }
}

/// The safety checks of `delete_save`, before any file is touched: when the
/// settings demand it the user must have confirmed with the phrase DELETE; the
/// target must be an existing file; and a vault delete must lie under the
/// vault root. A delete is allowed exactly when every check passes.
pub fn check_delete(request: &DeleteRequest, config: &AppConfig, probe: PathProbe) -> (r: Result<(), DeleteError>)
    ensures
        r is Ok <==> delete_verdict(*request, *config, probe) is Ok,
        delete_verdict(*request, *config, probe) matches Err(e) ==> (r matches Err(x) && x.text() == e.text()),
        r is Ok ==> {
            &&& config.safety.require_confirmation_for_delete ==> request.confirmed && phrase_confirms(request.confirmation_phrase)
            &&& probe.exists && probe.is_file
            &&& request.target == DeleteTarget::Vault ==> inside_vault(request.absolute_path@, config.vault_root@)
        },
{
    let require = config.safety.require_confirmation_for_delete;
    if require && !request.confirmed {
        return Err(DeleteError::ConfirmationRequired);
    }
    if require {
        proof {
            reveal_strlit("");
            assert(""@ =~= Seq::<char>::empty());
        }
        let phrase = match &request.confirmation_phrase {
            Some(p) => trimmed(p.as_str()),
            None => trimmed(""),
        };
        if !str_eq(phrase.as_str(), "DELETE") {
            return Err(DeleteError::PhraseMismatch);
        }
    }
    if !probe.exists {
        return Err(DeleteError::Missing(request.absolute_path.clone()));
    }
    if !probe.is_file {
        return Err(DeleteError::NotAFile(request.absolute_path.clone()));
    }
    if request.target == DeleteTarget::Vault {
        let lower_vault = lowercase(config.vault_root.as_str());
        let lower_target = lowercase(request.absolute_path.as_str());
        let normalized_vault = normalize_path(lower_vault.as_str());
        let normalized_target = normalize_path(lower_target.as_str());
        if !starts_with_path(normalized_target.as_str(), normalized_vault.as_str()) {
            return Err(DeleteError::OutsideVault(config.vault_root.clone()));
        }
    }
    Ok(())
}


/// Why a backup did not complete.
#[derive(Clone, Debug)]
pub enum BackupError {
    MissingActiveDir(String),
    CopyFailed { from: String, to: String },
    IntegrityFailed { from: String, to: String },
    /// A file-system step failed; the text is the failure as reported.
    Io(String),
    UnexpectedEvent,
}

impl BackupError {
    pub open spec fn text(self) -> Seq<char> {
        match self {
            BackupError::MissingActiveDir(d) => "active save directory does not exist: "@ + d@,
            BackupError::CopyFailed { from, to } => "failed to backup save from "@ + from@ + " to "@
                + to@,
            BackupError::IntegrityFailed { from, to } => "backup integrity verification failed for "@
                + from@ + " -> "@ + to@,
            BackupError::Io(t) => t@,
            BackupError::UnexpectedEvent => "backup step received an unexpected event"@,
        }
    }

    /// The message shown for this error.
    pub fn message(&self) -> (m: String)
        ensures
            m@ == self.text(),
    {
        match self {
            BackupError::MissingActiveDir(d) => crate::text::concat2(
                "active save directory does not exist: ",
                d.as_str(),
            ),
            BackupError::CopyFailed { from, to } => {
                let mut m = owned("failed to backup save from ");
                m.push_str(from.as_str());
                m.push_str(" to ");
                m.push_str(to.as_str());
                m
            },
            BackupError::IntegrityFailed { from, to } => {
                let mut m = owned("backup integrity verification failed for ");
                m.push_str(from.as_str());
                m.push_str(" -> ");
                m.push_str(to.as_str());
                m
            },
            BackupError::Io(t) => owned(t.as_str()),
            BackupError::UnexpectedEvent => owned("backup step received an unexpected event"),
        }
    }
}

/// `collect_backup_candidates`: the files of the active save directory (as
/// walked), which must exist and be a directory.
pub fn collect_backup_candidates(active_dir: &str, listing: &DirectoryListing) -> (r: Result<Vec<String>, BackupError>)
    ensures
        !(listing.root.exists && listing.root.is_dir) ==> (r matches Err(BackupError::MissingActiveDir(d))
            && d@ == active_dir@),
        listing.root.exists && listing.root.is_dir ==> (r matches Ok(files) && string_views(files@)
            == files_of(listing.entries@)),
{
    if !listing.root.exists || !listing.root.is_dir {
        return Err(BackupError::MissingActiveDir(owned(active_dir)));
    }
    Ok(listed_files(&listing.entries))
}

/// The record of a save copied into the vault at `destination`.
pub open spec fn vault_record_fits(
    game: GameRecord,
    destination: Seq<char>,
    fallback_name: Seq<char>,
    metadata: SaveMetadata,
    archived_at: Option<UtcTime>,
    r: SaveRecord,
) -> bool {
    &&& r.id@ == "vault:"@ + game.id@ + ":"@ + unicode_lowercase(destination)
    &&& r.game_id == game.id
    &&& r.file_name@ == match file_name_of(destination) {
        Some(f) => f,
        None => fallback_name,
    }
    &&& r.absolute_path@ == destination
    &&& r.origin == SaveOrigin::Vault
    &&& r.label is None
    &&& r.note is None
    &&& r.label_color is None
    &&& r.metadata == metadata
    &&& r.archived_at == archived_at
}

/// The record of a vaulted save (before annotations apply).
pub fn vault_record(
    game: &GameRecord,
    destination: &str,
    fallback_name: &str,
    metadata: SaveMetadata,
    archived_at: Option<UtcTime>,
) -> (r: SaveRecord)
    ensures
        vault_record_fits(*game, destination@, fallback_name@, metadata, archived_at, r),
{
    let mut id = owned("vault:");
    id.push_str(game.id.as_str());
    id.push_str(":");
    id.push_str(lowercase(destination).as_str());
    let name = match file_name(destination) {
        Some(f) => f,
        None => owned(fallback_name),
    };
    SaveRecord {
        id,
        game_id: game.id.clone(),
        file_name: name,
        absolute_path: owned(destination),
        origin: SaveOrigin::Vault,
        label: None,
        note: None,
        label_color: None,
        metadata,
        archived_at,
    }
}

/// One file found in a game's vault folder, with its metadata.
#[derive(Clone, Debug)]
pub struct VaultFile {
    pub path: String,
    pub metadata: SaveMetadata,
}

/// `out` is the listed record of the vault file at `path`: a vault record of
/// the game, with the label, note and colour of the first annotation of its id.
pub open spec fn listed_vault_save(game: GameRecord, f: VaultFile, entries: Seq<SaveAnnotation>, out: SaveRecord) -> bool {
    &&& out.id@ == "vault:"@ + game.id@ + ":"@ + unicode_lowercase(f.path@)
    &&& out.game_id == game.id
    &&& out.file_name@ == match file_name_of(f.path@) {
        Some(n) => n,
        None => "save.dat"@,
    }
    &&& out.absolute_path@ == f.path@
    &&& out.origin == SaveOrigin::Vault
    &&& out.metadata == f.metadata
    &&& out.archived_at is None
    &&& match lookup(entries, out.id@) {
        Some(a) => out.label == a.label && out.note == a.note && out.label_color == a.label_color,
        None => out.label is None && out.note is None && out.label_color is None,
    }
}

/// The order of vault saves: newest modification first, saves without a
/// modification time last.
pub open spec fn modified_key(f: VaultFile) -> Seq<i128> {
    crate::time::opt_time_key(f.metadata.modified_at)
}

/// The vault listing is newest first: in the order `list_vault_saves_for_game`
/// lists the files (a stable descending order of `modified_key`), a save
/// never comes after one modified earlier, saves modified at the same time keep
/// their folder order, and saves without a modification time come last.
pub proof fn law_vault_listing_newest_first(files: Seq<VaultFile>, order: Seq<usize>)
    requires
        is_permutation(order, files.len()),
        stably_sorted(Seq::new(files.len(), |i: int| modified_key(files[i])), order, true),
    ensures
        forall|i: int, j: int|
            #![trigger order[i], order[j]]
            0 <= i < j < order.len() ==> {
                &&& files[order[i] as int].metadata.modified_at matches Some(a) ==> (files[order[j] as int].metadata.modified_at
                    matches Some(b) ==> !time_lt(a, b))
                &&& files[order[i] as int].metadata.modified_at is None ==> files[order[j] as int].metadata.modified_at is None
            },
{
    let keys = Seq::new(files.len(), |i: int| modified_key(files[i]));
    assert forall|i: int, j: int|
        #![trigger order[i], order[j]]
        0 <= i < j < order.len() implies {
            &&& files[order[i] as int].metadata.modified_at matches Some(a) ==> (files[order[j] as int].metadata.modified_at
                matches Some(b) ==> !time_lt(a, b))
            &&& files[order[i] as int].metadata.modified_at is None ==> files[order[j] as int].metadata.modified_at is None
        } by {
        lemma_listing_pair(files, order, i, j);
    }
}

proof fn lemma_listing_pair(files: Seq<VaultFile>, order: Seq<usize>, i: int, j: int)
    requires
        is_permutation(order, files.len()),
        stably_sorted(Seq::new(files.len(), |i: int| modified_key(files[i])), order, true),
        0 <= i < j < order.len(),
    ensures
        files[order[i] as int].metadata.modified_at matches Some(a) ==> (files[order[j] as int].metadata.modified_at
            matches Some(b) ==> !time_lt(a, b)),
        files[order[i] as int].metadata.modified_at is None ==> files[order[j] as int].metadata.modified_at is None,
{
    let keys = Seq::new(files.len(), |i: int| modified_key(files[i]));
    let p = order[i] as int;
    let q = order[j] as int;
    assert(0 <= p < files.len() && 0 <= q < files.len());
    assert(!crate::sorting::key_lt(keys[p], keys[q]));
    assert(keys[p] == crate::time::opt_time_key(files[p].metadata.modified_at));
    assert(keys[q] == crate::time::opt_time_key(files[q].metadata.modified_at));
    if let Some(b) = files[q].metadata.modified_at {
        crate::time::law_time_key_follows_time(b, b);
        if let Some(a) = files[p].metadata.modified_at {
            crate::time::law_time_key_follows_time(a, b);
        }
    }
}

/// `list_vault_saves_for_game`: the files of the game's vault folder (walked
/// to depth 2; `files` are its files with their metadata), newest first
/// (stably), annotated. Nothing when the folder does not exist.
pub fn list_vault_saves_for_game(
    game: &GameRecord,
    folder_exists: bool,
    files: Vec<VaultFile>,
    annotations: &AnnotationRegistry,
) -> (out: Vec<SaveRecord>)
    ensures
        !folder_exists ==> out@.len() == 0,
        folder_exists ==> exists|order: Seq<usize>|
            {
                &&& is_permutation(order, files@.len())
                &&& stably_sorted(Seq::new(files@.len(), |i: int| modified_key(files@[i])), order, true)
                &&& out@.len() == files@.len()
                &&& forall|i: int| 0 <= i < out@.len() ==> listed_vault_save(*game, files@[order[i] as int], annotations.entries@, #[trigger] out@[i])
            },
{
    if !folder_exists {
        return Vec::new();
    }
    let n = files.len();
    let mut records: Vec<SaveRecord> = Vec::new();
    let mut keys: Vec<Vec<i128>> = Vec::new();
    for i in 0..n
        invariant
            n == files@.len(),
            records@.len() == i,
            keys@.len() == i,
            forall|k: int| 0 <= k < i ==> vault_record_fits(*game, files@[k].path@, "save.dat"@, files@[k].metadata, None, #[trigger] records@[k]),
            forall|k: int| 0 <= k < i ==> #[trigger] keys@[k]@ == modified_key(files@[k]),
    {
        let f = &files[i];
        let r = vault_record(game, f.path.as_str(), "save.dat", f.metadata.duplicate(), None);
        keys.push(crate::time::opt_time_key_exec(&f.metadata.modified_at));
        records.push(r);
    }
    let order = stable_order(&keys, true);
    assert(key_views(keys@) =~= Seq::new(files@.len(), |i: int| modified_key(files@[i])));
    let ghost recs = records@;
    let sorted = apply_order(records, &order);
    let out = apply_annotations(sorted, annotations);
    assert forall|i: int| 0 <= i < out@.len() implies listed_vault_save(*game, files@[order@[i] as int], annotations.entries@, #[trigger] out@[i]) by {
        let k = order@[i] as int;
        assert(sorted@[i] == recs[k]);
        assert(vault_record_fits(*game, files@[k].path@, "save.dat"@, files@[k].metadata, None, recs[k]));
        assert(annotated(sorted@[i], out@[i], annotations.entries@));
    }
    out
}

/// Where a backup stands.
#[derive(Clone, Copy, Debug, PartialEq, Eq, Structural)]
pub enum BackupPhase {
    AwaitVaultRoot,
    AwaitVaultDir,
    AwaitCandidates,
    AwaitDestination,
    AwaitCopy,
    AwaitIntegrity,
    AwaitRecordMetadata,
    AwaitAnnotations,
    Finished,
}

/// The next piece of file-system work a backup needs.
pub enum BackupAction {
    /// Read the configured vault root.
    LoadVaultRoot,
    /// Create the directory `path` (and its parents).
    EnsureDirectory { path: String },
    /// Walk the active save directory two levels deep.
    ListActiveDirectory { path: String },
    /// Report whether a file exists at `path` (a name tried for the next copy).
    ProbeDestination { path: String },
    /// Copy `from` to `to`.
    CopyFile { from: String, to: String },
    /// Read the metadata of `source` and of `destination`.
    ReadPairMetadata { source: String, destination: String },
    /// Read the metadata of the copy at `path`.
    ReadMetadata { path: String },
    /// Read the annotation registry.
    LoadAnnotations,
    /// The backup is over; see `BackupMachine::outcome`.
    Finish,
}

/// What the file-system work reported.
pub enum BackupEvent {
    VaultRoot(Result<String, String>),
    DirectoryReady(Result<(), String>),
    ActiveListing(Result<DirectoryListing, String>),
    DestinationExists(bool),
    Copied(Result<(), String>),
    PairMetadata(Result<(SaveMetadata, SaveMetadata), String>),
    RecordMetadata(Result<SaveMetadata, String>),
    Annotations(Result<AnnotationRegistry, String>),
}

/// The decisions of `backup_active_saves_for_game`, one reported outcome at a time.
pub struct BackupMachine {
    game: GameRecord,
    phase: BackupPhase,
    vault_dir: String,
    candidates: Vec<String>,
    next: usize,
    search: Option<FreeNameSearch>,
    destination: String,
    verified: bool,
    records: Vec<SaveRecord>,
    outcome: Option<Result<Vec<SaveRecord>, BackupError>>,
}

/// The name a backup copy of `source` gets: its file name, or `save.dat` (as
/// for the active save a swap stages).
pub open spec fn backup_name(source: Seq<char>) -> Seq<char> {
    crate::services::swap_service::staged_name(source)
}

/// `r` is the vault record of a verified copy of `source` for `game`, stored
/// under a free name in `vault_dir`.
pub open spec fn backed_up(game: GameRecord, vault_dir: Seq<char>, source: Seq<char>, r: SaveRecord) -> bool {
    &&& r.game_id == game.id
    &&& r.origin == SaveOrigin::Vault
    &&& r.archived_at is Some
    &&& free_name_for(vault_dir, backup_name(source), r.absolute_path@)
}

pub open spec fn backup_expects(p: BackupPhase, e: BackupEvent) -> bool {
    match p {
        BackupPhase::AwaitVaultRoot => e is VaultRoot,
        BackupPhase::AwaitVaultDir => e is DirectoryReady,
        BackupPhase::AwaitCandidates => e is ActiveListing,
        BackupPhase::AwaitDestination => e is DestinationExists,
        BackupPhase::AwaitCopy => e is Copied,
        BackupPhase::AwaitIntegrity => e is PairMetadata,
        BackupPhase::AwaitRecordMetadata => e is RecordMetadata,
        BackupPhase::AwaitAnnotations => e is Annotations,
        BackupPhase::Finished => false,
    }
}

impl BackupMachine {
    /// Every record so far is of a copy whose size and hash matched its source;
    /// the record read only follows a passed integrity check; the candidate
    /// index stays within the candidates; until finished there is one record per
    /// candidate done, each stored under a free name in the vault folder;
    /// finished exactly when there is an outcome.
    pub closed spec fn well_formed(self) -> bool {
        &&& self.phase == BackupPhase::AwaitRecordMetadata ==> self.verified
        &&& (self.phase == BackupPhase::AwaitDestination || self.phase == BackupPhase::AwaitCopy
            || self.phase == BackupPhase::AwaitIntegrity || self.phase == BackupPhase::AwaitRecordMetadata)
            ==> self.next < self.candidates@.len()
        &&& self.next <= self.candidates@.len()
        &&& (self.phase == BackupPhase::Finished) == (self.outcome is Some)
        &&& self.phase != BackupPhase::Finished ==> self.records@.len() == self.next
        &&& self.phase != BackupPhase::Finished ==> forall|i: int|
            0 <= i < self.records@.len() ==> backed_up(
                self.game,
                self.vault_dir@,
                self.candidates@[i]@,
                #[trigger] self.records@[i],
            )
        &&& (self.phase == BackupPhase::AwaitVaultRoot || self.phase == BackupPhase::AwaitVaultDir || self.phase
            == BackupPhase::AwaitCandidates) ==> self.next == 0
        &&& self.phase == BackupPhase::AwaitAnnotations ==> self.next == self.candidates@.len()
        &&& self.phase == BackupPhase::AwaitDestination ==> (self.search matches Some(s) && s.dir_of()
            == self.vault_dir@ && s.name_of() == backup_name(self.candidates@[self.next as int]@))
        &&& (self.phase == BackupPhase::AwaitCopy || self.phase == BackupPhase::AwaitIntegrity || self.phase
            == BackupPhase::AwaitRecordMetadata) ==> free_name_for(
            self.vault_dir@,
            backup_name(self.candidates@[self.next as int]@),
            self.destination@,
        )
    }

    /// The files to back up, once listed.
    pub closed spec fn candidates_of(self) -> Seq<Seq<char>> {
        string_views(self.candidates@)
    }

    /// How many of them are done.
    pub closed spec fn next_of(self) -> int {
        self.next as int
    }

    /// The game's vault folder, once known.
    pub closed spec fn vault_dir_of(self) -> Seq<char> {
        self.vault_dir@
    }

    /// The free-name search for the current file.
    pub closed spec fn search_of(self) -> Option<FreeNameSearch> {
        self.search
    }

    pub closed spec fn game_of(self) -> GameRecord {
        self.game
    }

    pub closed spec fn phase_of(self) -> BackupPhase {
        self.phase
    }

    pub closed spec fn records_of(self) -> Seq<SaveRecord> {
        self.records@
    }

    pub closed spec fn verified_of(self) -> bool {
        self.verified
    }

    pub closed spec fn destination_of(self) -> Seq<char> {
        self.destination@
    }

    pub closed spec fn outcome_of(self) -> Option<Result<Vec<SaveRecord>, BackupError>> {
        self.outcome
    }

    /// Starts backing up every file of the game's active save directory; the
    /// first step is reading the vault root.
    pub fn start(game: GameRecord) -> (r: (BackupMachine, BackupAction))
        ensures
            r.0.well_formed(),
            r.0.game_of() == game,
            r.0.phase_of() == BackupPhase::AwaitVaultRoot,
            r.0.records_of().len() == 0,
            r.1 is LoadVaultRoot,
    {
        let m = BackupMachine {
            game,
            phase: BackupPhase::AwaitVaultRoot,
            vault_dir: String::new(),
            candidates: Vec::new(),
            next: 0,
            search: None,
            destination: String::new(),
            verified: false,
            records: Vec::new(),
            outcome: None,
        };
        (m, BackupAction::LoadVaultRoot)
    }

    pub fn phase(&self) -> (p: BackupPhase)
        ensures
            p == self.phase_of(),
    {
        self.phase
    }

    /// The result once finished.
    pub fn outcome(&self) -> (r: Option<&Result<Vec<SaveRecord>, BackupError>>)
        ensures
            r == match self.outcome_of() {
                Some(o) => Some(&o),
                None => None::<&Result<Vec<SaveRecord>, BackupError>>,
            },
    {
        self.outcome.as_ref()
    }

    fn fail(&mut self, e: BackupError) -> (a: BackupAction)
        requires
            old(self).well_formed(),
        ensures
            final(self).well_formed(),
            a is Finish,
            final(self).phase == BackupPhase::Finished,
            final(self).outcome == Some(Err::<Vec<SaveRecord>, BackupError>(e)),
            final(self).game == old(self).game,
            final(self).records == old(self).records,
            final(self).verified == old(self).verified,
            final(self).candidates == old(self).candidates,
            final(self).vault_dir == old(self).vault_dir,
            final(self).next == old(self).next,
    {
        self.outcome = Some(Err(e));
        self.phase = BackupPhase::Finished;
        BackupAction::Finish
    }

    /// Moves on to the next candidate (probing its plain name in the vault
    /// folder first), or to the annotations when none is left.
    fn advance(&mut self) -> (a: BackupAction)
        requires
            old(self).next <= old(self).candidates@.len(),
            old(self).outcome is None,
            old(self).records@.len() == old(self).next,
            forall|i: int|
                0 <= i < old(self).records@.len() ==> backed_up(
                    old(self).game,
                    old(self).vault_dir@,
                    old(self).candidates@[i]@,
                    #[trigger] old(self).records@[i],
                ),
        ensures
            final(self).well_formed(),
            final(self).game == old(self).game,
            final(self).records == old(self).records,
            final(self).candidates == old(self).candidates,
            final(self).vault_dir == old(self).vault_dir,
            final(self).next == old(self).next,
            !final(self).verified,
            old(self).next < old(self).candidates@.len() ==> {
                &&& final(self).phase == BackupPhase::AwaitDestination
                &&& a matches BackupAction::ProbeDestination { path } && path@ == join_text(
                    old(self).vault_dir@,
                    backup_name(old(self).candidates@[old(self).next as int]@),
                )
                &&& final(self).search matches Some(s) && s.attempt_of() == 0 && (a matches BackupAction::ProbeDestination {
                    path,
                } && s.probe_of() == path@)
            },
            old(self).next >= old(self).candidates@.len() ==> final(self).phase == BackupPhase::AwaitAnnotations
                && a is LoadAnnotations,
    {
        self.verified = false;
        if self.next < self.candidates.len() {
            self.phase = BackupPhase::AwaitDestination;
            let source = &self.candidates[self.next];
            let name = match file_name(source.as_str()) {
                Some(f) => f,
                None => owned("save.dat"),
            };
            proof {
                reveal_strlit("save.dat");
            }
            assert(name@ == backup_name(self.candidates@[self.next as int]@));
            let (search, first) = FreeNameSearch::start(self.vault_dir.as_str(), name.as_str());
            self.search = Some(search);
            BackupAction::ProbeDestination { path: first }
        } else {
            self.phase = BackupPhase::AwaitAnnotations;
            BackupAction::LoadAnnotations
        }
    }

    /// The machine waits on the probe of the plain name for candidate `k` (its
    /// file name in the vault folder), with a fresh search behind that probe.
    pub open spec fn probing_first_name(self, k: int, a: BackupAction) -> bool {
        &&& self.phase_of() == BackupPhase::AwaitDestination
        &&& a matches BackupAction::ProbeDestination { path } && path@ == join_text(
            self.vault_dir_of(),
            backup_name(self.candidates_of()[k]),
        )
        &&& self.search_of() matches Some(s) && s.attempt_of() == 0 && s.dir_of() == self.vault_dir_of()
            && s.name_of() == backup_name(self.candidates_of()[k]) && (a matches BackupAction::ProbeDestination {
            path,
        } && s.probe_of() == path@)
    }

    /// Takes the outcome of the last requested work and returns the next work.
    ///
    /// The candidates are the listed files of the active folder; each is
    /// copied, in order, to the first free name for it in the game's vault
    /// folder (see `FreeNameSearch`). Whatever the events: a
    /// record is only added for a copy whose size and hash were just found equal
    /// to its source's; any failure ends the backup with that failure; and a
    /// successful backup is the annotated list of one record per candidate.
    pub fn on_event(&mut self, event: BackupEvent) -> (action: BackupAction)
        requires
            old(self).well_formed(),
        ensures
            final(self).well_formed(),
            final(self).game_of() == old(self).game_of(),
            (action is Finish) == (final(self).phase_of() == BackupPhase::Finished),
            final(self).records_of().len() > old(self).records_of().len() ==> {
                &&& old(self).phase_of() == BackupPhase::AwaitRecordMetadata
                &&& old(self).verified_of()
                &&& final(self).records_of().len() == old(self).records_of().len() + 1
                &&& final(self).records_of().drop_last() == old(self).records_of()
                &&& event matches BackupEvent::RecordMetadata(Ok(md)) && vault_record_fits(
                    old(self).game_of(),
                    old(self).destination_of(),
                    final(self).records_of().last().file_name@,
                    md,
                    final(self).records_of().last().archived_at,
                    final(self).records_of().last(),
                ) && final(self).records_of().last().archived_at is Some
            },
            final(self).records_of().len() <= old(self).records_of().len() + 1,
            final(self).records_of().len() < old(self).records_of().len() ==> final(self).phase_of()
                == BackupPhase::Finished,
            old(self).phase_of() == BackupPhase::Finished ==> action is Finish && *final(self) == *old(
                self,
            ),
            old(self).phase_of() != BackupPhase::Finished && !backup_expects(old(self).phase_of(), event)
                ==> final(self).outcome_of() == Some(
                Err::<Vec<SaveRecord>, BackupError>(BackupError::UnexpectedEvent),
            ),
            old(self).phase_of() == BackupPhase::AwaitVaultRoot ==> (event matches BackupEvent::VaultRoot(res)
                ==> match res {
                Err(t) => final(self).outcome_of() == Some(
                    Err::<Vec<SaveRecord>, BackupError>(BackupError::Io(t)),
                ),
                Ok(root) => action matches BackupAction::EnsureDirectory { path } && path@
                    == game_vault_dir_text(root@, old(self).game_of().name@),
            }),
            old(self).phase_of() == BackupPhase::AwaitVaultDir ==> (event matches BackupEvent::DirectoryReady(res)
                ==> match res {
                Err(t) => final(self).outcome_of() == Some(
                    Err::<Vec<SaveRecord>, BackupError>(BackupError::Io(t)),
                ),
                Ok(_) => action matches BackupAction::ListActiveDirectory { path } && path
                    == old(self).game_of().active_save_dir,
            }),
            old(self).phase_of() == BackupPhase::AwaitCandidates ==> (event matches BackupEvent::ActiveListing(res)
                ==> match res {
                Err(t) => final(self).outcome_of() == Some(
                    Err::<Vec<SaveRecord>, BackupError>(BackupError::Io(t)),
                ),
                Ok(listing) => if listing.root.exists && listing.root.is_dir {
                    &&& final(self).candidates_of() == files_of(listing.entries@)
                    &&& final(self).next_of() == 0
                    &&& if files_of(listing.entries@).len() > 0 {
                        final(self).probing_first_name(0, action)
                    } else {
                        action is LoadAnnotations
                    }
                } else {
                    final(self).outcome_of() matches Some(Err(BackupError::MissingActiveDir(d))) && d@
                        == old(self).game_of().active_save_dir@
                },
            }),
            old(self).phase_of() == BackupPhase::AwaitDestination ==> {
                &&& old(self).search_of() matches Some(s) && s.dir_of() == old(self).vault_dir_of() && s.name_of()
                    == backup_name(old(self).candidates_of()[old(self).next_of()])
                &&& event matches BackupEvent::DestinationExists(exists) ==> match old(self).search_of() {
                    Some(s) => if !exists {
                        &&& action matches BackupAction::CopyFile { from, to } && from@ == old(self).candidates_of()[old(
                            self,
                        ).next_of()] && to@ == s.probe_of()
                        &&& final(self).destination_of() == s.probe_of()
                    } else if s.attempt_of() < UNIQUE_ATTEMPTS {
                        &&& action matches BackupAction::ProbeDestination { path } && path@ == candidate_text(
                            s.dir_of(),
                            s.name_of(),
                            s.stamp_of(),
                            s.attempt_of() + 1,
                        )
                        &&& final(self).phase_of() == BackupPhase::AwaitDestination
                        &&& final(self).search_of() matches Some(t) && t.dir_of() == s.dir_of() && t.name_of()
                            == s.name_of() && t.stamp_of() == s.stamp_of() && t.attempt_of() == s.attempt_of() + 1
                            && (action matches BackupAction::ProbeDestination { path } && t.probe_of() == path@)
                    } else {
                        &&& action matches BackupAction::CopyFile { from, to } && from@ == old(self).candidates_of()[old(
                            self,
                        ).next_of()] && to@ == candidate_text(
                            s.dir_of(),
                            s.name_of(),
                            s.stamp_of(),
                            (UNIQUE_ATTEMPTS + 1) as nat,
                        )
                        &&& final(self).destination_of() == candidate_text(
                            s.dir_of(),
                            s.name_of(),
                            s.stamp_of(),
                            (UNIQUE_ATTEMPTS + 1) as nat,
                        )
                    },
                    None => false,
                }
            },
            action matches BackupAction::CopyFile { from, to } ==> {
                &&& from@ == final(self).candidates_of()[final(self).next_of()]
                &&& to@ == final(self).destination_of()
                &&& free_name_for(final(self).vault_dir_of(), backup_name(from@), to@)
            },
            old(self).phase_of() != BackupPhase::AwaitCandidates ==> final(self).candidates_of() == old(
                self,
            ).candidates_of(),
            old(self).phase_of() != BackupPhase::AwaitVaultRoot ==> final(self).vault_dir_of() == old(
                self,
            ).vault_dir_of(),
            old(self).phase_of() == BackupPhase::AwaitVaultRoot ==> (event matches BackupEvent::VaultRoot(Ok(root))
                ==> final(self).vault_dir_of() == game_vault_dir_text(root@, old(self).game_of().name@)),
            old(self).phase_of() == BackupPhase::AwaitCopy ==> (event matches BackupEvent::Copied(res)
                ==> match res {
                Err(_) => final(self).outcome_of() matches Some(Err(BackupError::CopyFailed { to, .. }))
                    && to@ == old(self).destination_of(),
                Ok(_) => action matches BackupAction::ReadPairMetadata { source, destination }
                    && source@ == old(self).candidates_of()[old(self).next_of()] && destination@ == old(
                    self,
                ).destination_of(),
            }),
            old(self).phase_of() == BackupPhase::AwaitIntegrity ==> (event matches BackupEvent::PairMetadata(res)
                ==> match res {
                Err(_) => final(self).outcome_of() matches Some(
                    Err(BackupError::IntegrityFailed { to, .. }),
                ) && to@ == old(self).destination_of(),
                Ok(pair) => if integrity_verdict(pair.0, pair.1) is Ok {
                    final(self).verified_of() && (action matches BackupAction::ReadMetadata { path }
                        && path@ == old(self).destination_of())
                } else {
                    final(self).outcome_of() matches Some(Err(BackupError::IntegrityFailed { to, .. }))
                        && to@ == old(self).destination_of()
                },
            }),
            old(self).phase_of() == BackupPhase::AwaitRecordMetadata ==> (event matches BackupEvent::RecordMetadata(
                res,
            ) ==> match res {
                Err(t) => final(self).outcome_of() == Some(
                    Err::<Vec<SaveRecord>, BackupError>(BackupError::Io(t)),
                ),
                Ok(_) => {
                    &&& final(self).records_of().len() == old(self).records_of().len() + 1
                    &&& final(self).next_of() == old(self).next_of() + 1
                    &&& backed_up(
                        old(self).game_of(),
                        old(self).vault_dir_of(),
                        old(self).candidates_of()[old(self).next_of()],
                        final(self).records_of().last(),
                    )
                    &&& if old(self).next_of() + 1 < old(self).candidates_of().len() {
                        final(self).probing_first_name(old(self).next_of() + 1, action)
                    } else {
                        action is LoadAnnotations
                    }
                },
            }),
            old(self).phase_of() == BackupPhase::AwaitAnnotations ==> (event matches BackupEvent::Annotations(res)
                ==> match res {
                Err(t) => final(self).outcome_of() == Some(
                    Err::<Vec<SaveRecord>, BackupError>(BackupError::Io(t)),
                ),
                Ok(reg) => final(self).outcome_of() matches Some(Ok(out)) && out@.len()
                    == old(self).records_of().len() && out@.len() == old(self).candidates_of().len() && forall|i: int|
                    0 <= i < out@.len() ==> annotated(
                        old(self).records_of()[i],
                        #[trigger] out@[i],
                        reg.entries@,
                    ) && backed_up(
                        old(self).game_of(),
                        old(self).vault_dir_of(),
                        old(self).candidates_of()[i],
                        old(self).records_of()[i],
                    ),
            }),
    {
        match (self.phase, event) {
            (BackupPhase::Finished, _) => BackupAction::Finish,
            (BackupPhase::AwaitVaultRoot, BackupEvent::VaultRoot(res)) => match res {
                Err(t) => self.fail(BackupError::Io(t)),
                Ok(root) => {
                    self.vault_dir = game_vault_dir(root.as_str(), self.game.name.as_str());
                    self.phase = BackupPhase::AwaitVaultDir;
                    BackupAction::EnsureDirectory { path: self.vault_dir.clone() }
                },
            },
            (BackupPhase::AwaitVaultDir, BackupEvent::DirectoryReady(res)) => match res {
                Err(t) => self.fail(BackupError::Io(t)),
                Ok(()) => {
                    self.phase = BackupPhase::AwaitCandidates;
                    BackupAction::ListActiveDirectory { path: self.game.active_save_dir.clone() }
                },
            },
            (BackupPhase::AwaitCandidates, BackupEvent::ActiveListing(res)) => match res {
                Err(t) => self.fail(BackupError::Io(t)),
                Ok(listing) => {
                    match collect_backup_candidates(self.game.active_save_dir.as_str(), &listing) {
                        Err(e) => self.fail(e),
                        Ok(files) => {
                            self.candidates = files;
                            self.next = 0;
                            self.advance()
                        },
                    }
                },
            },
            (BackupPhase::AwaitDestination, BackupEvent::DestinationExists(exists)) => {
                let mut current: Option<FreeNameSearch> = None;
                std::mem::swap(&mut current, &mut self.search);
                match current {
                    Some(mut search) => match search.on_probe(exists) {
                        SearchStep::Probe(p) => {
                            self.search = Some(search);
                            BackupAction::ProbeDestination { path: p }
                        },
                        SearchStep::Chosen(c) => {
                            self.destination = c;
                            self.phase = BackupPhase::AwaitCopy;
                            BackupAction::CopyFile {
                                from: self.candidates[self.next].clone(),
                                to: self.destination.clone(),
                            }
                        },
                    },
                    None => self.fail(BackupError::UnexpectedEvent),
                }
            },
            (BackupPhase::AwaitCopy, BackupEvent::Copied(res)) => match res {
                Err(_) => {
                    let e = BackupError::CopyFailed {
                        from: self.candidates[self.next].clone(),
                        to: self.destination.clone(),
                    };
                    self.fail(e)
                },
                Ok(()) => {
                    self.phase = BackupPhase::AwaitIntegrity;
                    BackupAction::ReadPairMetadata {
                        source: self.candidates[self.next].clone(),
                        destination: self.destination.clone(),
                    }
                },
            },
            (BackupPhase::AwaitIntegrity, BackupEvent::PairMetadata(res)) => {
                let failed = BackupError::IntegrityFailed {
                    from: self.candidates[self.next].clone(),
                    to: self.destination.clone(),
                };
                match res {
                    Err(_) => self.fail(failed),
                    Ok(pair) => match verify_metadata_pair(&pair.0, &pair.1) {
                        Err(_) => self.fail(failed),
                        Ok(()) => {
                            self.verified = true;
                            self.phase = BackupPhase::AwaitRecordMetadata;
                            BackupAction::ReadMetadata { path: self.destination.clone() }
                        },
                    },
                }
            },
            (BackupPhase::AwaitRecordMetadata, BackupEvent::RecordMetadata(res)) => match res {
                Err(t) => self.fail(BackupError::Io(t)),
                Ok(md) => {
                    let source = &self.candidates[self.next];
                    let fallback = match file_name(source.as_str()) {
                        Some(f) => f,
                        None => owned("save.dat"),
                    };
                    let now = now_utc();
                    let record = vault_record(
                        &self.game,
                        self.destination.as_str(),
                        fallback.as_str(),
                        md,
                        Some(now),
                    );
                    let ghost before = self.records@;
                    self.records.push(record);
                    assert(self.records@.drop_last() =~= before);
                    if self.next < self.candidates.len() {
                        self.next = self.next + 1;
                    }
                    self.advance()
                },
            },
            (BackupPhase::AwaitAnnotations, BackupEvent::Annotations(res)) => match res {
                Err(t) => self.fail(BackupError::Io(t)),
                Ok(registry) => {
                    let mut records: Vec<SaveRecord> = Vec::new();
                    std::mem::swap(&mut records, &mut self.records);
                    let annotated_records = apply_annotations(records, &registry);
                    self.outcome = Some(Ok(annotated_records));
                    self.phase = BackupPhase::Finished;
                    BackupAction::Finish
                },
            },
            (_, _) => self.fail(BackupError::UnexpectedEvent),
        }
    }
}

} // verus!
