//! Swapping a vault save into the active directory: preflight checks, conflict
//! resolution, staging of the replaced save, verified placement and rollback.
//!
//! The transaction alternates file-system work with decisions; the decisions
//! are the `SwapMachine`, which answers each reported outcome with the next
//! thing to do.

use vstd::prelude::*;

use crate::domain::conflict::{
    compute_freshness, freshness_of, same_hash, ConflictComparison, ResolutionChoice, SaveFreshness,
};
use crate::domain::game::{same_game, GameRecord};
use crate::domain::save::{SaveMetadata, SaveOrigin, SaveRecord};
use crate::platform::fs::{
    comps, extension_of, extension_of_name, file_name, file_name_of, join, join_text, last_dot,
    lemma_comps_valid, lemma_join_plain_name, lemma_last_dot_bounds, no_sep, path_starts_with, plain_name,
    root_comp, stem_of, stem_of_name, PathProbe,
};
use crate::services::config_service::ConflictPolicy;
use crate::services::metadata_service::{integrity_verdict, verify_metadata_pair, IntegrityError};
use crate::text::{
    ascii_lower, bool_string, bool_text, concat2, concat3, decimal, digit_char, is_ascii_alphanumeric, lowercase,
    owned, trim, trimmed, u64_text, unicode_lowercase,
};
use crate::time::{compact_stamp, compact_stamp_text, stamp_chars, time_lt, UtcTime};

verus! {

pub struct SwapPreflightRequest {
    pub source_save: SaveRecord,
    pub destination_dir: String,
}

#[derive(Clone, Copy, Debug, PartialEq, Eq, Structural)]
pub struct SwapPreflightReport {
    pub source_exists: bool,
    pub source_is_file: bool,
    pub destination_exists: bool,
    pub destination_is_dir: bool,
    pub source_readable: bool,
    pub destination_writable: bool,
    pub required_bytes: u64,
    pub available_bytes: Option<u64>,
}

impl SwapPreflightReport {
    /// Every check passed and the destination has room for the source.
    pub open spec fn ready(self) -> bool {
        &&& self.source_exists
        &&& self.source_is_file
        &&& self.destination_exists
        &&& self.destination_is_dir
        &&& self.source_readable
        &&& self.destination_writable
        &&& match self.available_bytes {
            Some(available) => available >= self.required_bytes,
            None => false,
        }
    }

    pub fn is_ready(&self) -> (r: bool)
        ensures
            r == self.ready(),
    {
        self.source_exists && self.source_is_file && self.destination_exists
            && self.destination_is_dir && self.source_readable && self.destination_writable
            && match self.available_bytes {
            Some(available) => available >= self.required_bytes,
            None => false,
        }
    }
}

/// What the file system reported for a preflight: the source file, whether it
/// opens for reading, the destination directory, whether a probe file could be
/// written there, and the free space there.
#[derive(Clone, Copy)]
pub struct PreflightProbes {
    pub source: PathProbe,
    pub source_openable: bool,
    pub destination: PathProbe,
    pub destination_writable: bool,
    pub available_bytes: Option<u64>,
}

/// `preflight_check`: each check requires the ones before it (a source that is
/// not a file is not readable; free space is only asked of a directory).
pub fn preflight_check(request: &SwapPreflightRequest, probes: PreflightProbes) -> (r: SwapPreflightReport)
    ensures
        r.source_exists == probes.source.exists,
        r.source_is_file == (probes.source.exists && probes.source.is_file),
        r.destination_exists == probes.destination.exists,
        r.destination_is_dir == (probes.destination.exists && probes.destination.is_dir),
        r.source_readable == (r.source_is_file && probes.source_openable),
        r.destination_writable == (r.destination_is_dir && probes.destination_writable),
        r.required_bytes == request.source_save.metadata.byte_size,
        r.available_bytes == (if r.destination_is_dir { probes.available_bytes } else { None }),
{
    let source_exists = probes.source.exists;
    let source_is_file = source_exists && probes.source.is_file;
    let destination_exists = probes.destination.exists;
    let destination_is_dir = destination_exists && probes.destination.is_dir;
    SwapPreflightReport {
        source_exists,
        source_is_file,
        destination_exists,
        destination_is_dir,
        source_readable: source_is_file && probes.source_openable,
        destination_writable: destination_is_dir && probes.destination_writable,
        required_bytes: request.source_save.metadata.byte_size,
        available_bytes: if destination_is_dir {
            probes.available_bytes
        } else {
            None
        },
    }
}

/// Why a swap did not complete.
#[derive(Clone, Debug)]
pub enum SwapError {
    PreflightFailed(SwapPreflightReport),
    ConfirmationRequired,
    CancelledKeepDestination,
    CancelledUnknownFreshness,
    CancelledByUser,
    CopyFailed { from: String, to: String },
    VerificationFailed(IntegrityError),
    /// A file-system step failed; the text is the failure as reported.
    Io(String),
    UnexpectedEvent,
}

pub open spec fn opt_u64_debug(v: Option<u64>) -> Seq<char> {
    match v {
        Some(n) => "Some("@ + decimal(n as nat) + ")"@,
        None => "None"@,
    }
}

fn opt_u64_debug_string(v: Option<u64>) -> (s: String)
    ensures
        s@ == opt_u64_debug(v),
{
    match v {
        Some(n) => concat3("Some(", u64_text(n).as_str(), ")"),
        None => owned("None"),
    }
}

pub open spec fn preflight_text(r: SwapPreflightReport) -> Seq<char> {
    "swap preflight failed (src_exists="@ + bool_text(r.source_exists) + ", src_file="@ + bool_text(
        r.source_is_file,
    ) + ", dst_exists="@ + bool_text(r.destination_exists) + ", dst_dir="@ + bool_text(
        r.destination_is_dir,
    ) + ", src_readable="@ + bool_text(r.source_readable) + ", dst_writable="@ + bool_text(
        r.destination_writable,
    ) + ", required_bytes="@ + decimal(r.required_bytes as nat) + ", available_bytes="@
        + opt_u64_debug(r.available_bytes) + ")"@
}

impl SwapError {
    pub open spec fn text(self) -> Seq<char> {
        match self {
            SwapError::PreflightFailed(r) => preflight_text(r),
            SwapError::ConfirmationRequired =>
                "swap blocked: confirmation required before replacing active save"@,
            SwapError::CancelledKeepDestination =>
                "swap cancelled by resolution choice: keep destination"@,
            SwapError::CancelledUnknownFreshness => "swap cancelled due to unknown freshness"@,
            SwapError::CancelledByUser => "swap cancelled by user choice"@,
            SwapError::CopyFailed { from, to } => "failed to copy selected save "@ + from@
                + " into active location "@ + to@,
            SwapError::VerificationFailed(_) => "swap verification failed after file placement"@,
            SwapError::Io(t) => t@,
            SwapError::UnexpectedEvent => "swap step received an unexpected event"@,
        }
    }

    /// The message shown for this error.
    pub fn message(&self) -> (m: String)
        ensures
            m@ == self.text(),
    {
        match self {
            SwapError::PreflightFailed(r) => {
                let mut m = owned("swap preflight failed (src_exists=");
                m.push_str(bool_string(r.source_exists).as_str());
                m.push_str(", src_file=");
                m.push_str(bool_string(r.source_is_file).as_str());
                m.push_str(", dst_exists=");
                m.push_str(bool_string(r.destination_exists).as_str());
                m.push_str(", dst_dir=");
                m.push_str(bool_string(r.destination_is_dir).as_str());
                m.push_str(", src_readable=");
                m.push_str(bool_string(r.source_readable).as_str());
                m.push_str(", dst_writable=");
                m.push_str(bool_string(r.destination_writable).as_str());
                m.push_str(", required_bytes=");
                m.push_str(u64_text(r.required_bytes).as_str());
                m.push_str(", available_bytes=");
                m.push_str(opt_u64_debug_string(r.available_bytes).as_str());
                m.push_str(")");
                m
            },
            SwapError::ConfirmationRequired => owned(
                "swap blocked: confirmation required before replacing active save",
            ),
            SwapError::CancelledKeepDestination => owned(
                "swap cancelled by resolution choice: keep destination",
            ),
            SwapError::CancelledUnknownFreshness => owned("swap cancelled due to unknown freshness"),
            SwapError::CancelledByUser => owned("swap cancelled by user choice"),
            SwapError::CopyFailed { from, to } => {
                let mut m = owned("failed to copy selected save ");
                m.push_str(from.as_str());
                m.push_str(" into active location ");
                m.push_str(to.as_str());
                m
            },
            SwapError::VerificationFailed(_) => owned("swap verification failed after file placement"),
            SwapError::Io(t) => owned(t.as_str()),
            SwapError::UnexpectedEvent => owned("swap step received an unexpected event"),
        }
    }
}

/// `ensure_preflight_ready`: the report when every check passed, otherwise the
/// failure naming each check.
pub fn ensure_preflight_ready(report: SwapPreflightReport) -> (r: Result<SwapPreflightReport, SwapError>)
    ensures
        report.ready() ==> r == Ok::<SwapPreflightReport, SwapError>(report),
        !report.ready() ==> (r matches Err(SwapError::PreflightFailed(x)) && x == report),
{
    if !report.is_ready() {
        return Err(SwapError::PreflightFailed(report));
    }
    Ok(report)
}

pub open spec fn swap_reason(f: SaveFreshness) -> Seq<char> {
    match f {
        SaveFreshness::Equal => "files appear equivalent by timestamp/hash"@,
        SaveFreshness::SourceNewer => "selected vault save is newer than active save"@,
        SaveFreshness::DestinationNewer => "active save is newer than selected vault save"@,
        SaveFreshness::Unknown => "unable to determine freshness confidently"@,
    }
}

/// `compare_for_swap`: the freshness verdict of the selected vault save
/// against the active save, with a reason worded for swapping.
pub fn compare_for_swap(source: &SaveRecord, destination: &SaveRecord) -> (c: ConflictComparison)
    ensures
        c.freshness == freshness_of(source.metadata, destination.metadata),
        c.reason@ == swap_reason(c.freshness),
        c.source_path@ == source.absolute_path@,
        c.destination_path@ == destination.absolute_path@,
        c.source_metadata == source.metadata,
        c.destination_metadata == destination.metadata,
{
    let freshness = compute_freshness(&source.metadata, &destination.metadata);
    let reason = match freshness {
        SaveFreshness::Equal => owned("files appear equivalent by timestamp/hash"),
        SaveFreshness::SourceNewer => owned("selected vault save is newer than active save"),
        SaveFreshness::DestinationNewer => owned("active save is newer than selected vault save"),
        SaveFreshness::Unknown => owned("unable to determine freshness confidently"),
    };
    ConflictComparison {
        source_path: source.absolute_path.clone(),
        destination_path: destination.absolute_path.clone(),
        source_metadata: source.metadata.duplicate(),
        destination_metadata: destination.metadata.duplicate(),
        freshness,
        reason,
    }
}

/// What `apply_resolution_choice` decides for a verdict and a choice.
pub open spec fn resolution_outcome(f: SaveFreshness, choice: ResolutionChoice) -> Result<(), SwapError> {
    match (f, choice) {
        (SaveFreshness::DestinationNewer, ResolutionChoice::KeepDestination) => Err(
            SwapError::CancelledKeepDestination,
        ),
        (SaveFreshness::Unknown, ResolutionChoice::CancelOperation) => Err(
            SwapError::CancelledUnknownFreshness,
        ),
        (_, ResolutionChoice::CancelOperation) => Err(SwapError::CancelledByUser),
        _ => Ok(()),
    }
}

/// `apply_resolution_choice`: cancelling always stops the swap, and so does
/// keeping a destination that is newer; anything else lets it proceed.
pub fn apply_resolution_choice(choice: ResolutionChoice, comparison: &ConflictComparison) -> (r: Result<(), SwapError>)
    ensures
        r is Ok <==> resolution_outcome(comparison.freshness, choice) is Ok,
        resolution_outcome(comparison.freshness, choice) matches Err(e) ==> (r matches Err(x) && x == e),
{
    match (comparison.freshness, choice) {
        (SaveFreshness::DestinationNewer, ResolutionChoice::KeepDestination) => Err(
            SwapError::CancelledKeepDestination,
        ),
        (SaveFreshness::Unknown, ResolutionChoice::CancelOperation) => Err(
            SwapError::CancelledUnknownFreshness,
        ),
        (_, ResolutionChoice::CancelOperation) => Err(SwapError::CancelledByUser),
        _ => Ok(()),
    }
}

/// The choice a conflict policy makes when the user gave none.
pub open spec fn policy_choice(policy: ConflictPolicy, f: SaveFreshness) -> ResolutionChoice {
    match policy {
        ConflictPolicy::PromptAlways => ResolutionChoice::CancelOperation,
        ConflictPolicy::KeepBothByDefault => ResolutionChoice::KeepBothRename,
        ConflictPolicy::PreferNewerWithPromptOnEqual => match f {
            SaveFreshness::SourceNewer => ResolutionChoice::KeepSource,
            SaveFreshness::DestinationNewer => ResolutionChoice::KeepDestination,
            _ => ResolutionChoice::CancelOperation,
        },
    }
}

pub fn choice_from_policy(policy: ConflictPolicy, f: SaveFreshness) -> (c: ResolutionChoice)
    ensures
        c == policy_choice(policy, f),
{
    match policy {
        ConflictPolicy::PromptAlways => ResolutionChoice::CancelOperation,
        ConflictPolicy::KeepBothByDefault => ResolutionChoice::KeepBothRename,
        ConflictPolicy::PreferNewerWithPromptOnEqual => match f {
            SaveFreshness::SourceNewer => ResolutionChoice::KeepSource,
            SaveFreshness::DestinationNewer => ResolutionChoice::KeepDestination,
            _ => ResolutionChoice::CancelOperation,
        },
    }
}

/// Under "prefer newer, prompt on equal" the policy keeps the newer side and
/// never lets a swap replace a newer active save: when the selected save was
/// modified later than the active one (and their hashes differ) the swap goes
/// ahead keeping the selected save; when the active save was modified later,
/// the swap is cancelled keeping the active save; when neither is newer, or
/// their times are unknown, the user is asked (the swap is cancelled).
pub proof fn law_prefer_newer_keeps_the_newer_save(selected: SaveMetadata, active: SaveMetadata)
    ensures
        ({
            let f = freshness_of(selected, active);
            let choice = policy_choice(ConflictPolicy::PreferNewerWithPromptOnEqual, f);
            &&& (selected.modified_at matches Some(a) && active.modified_at matches Some(b) && !same_hash(selected, active)
                && time_lt(b, a)) ==> choice == ResolutionChoice::KeepSource && resolution_outcome(f, choice) is Ok
            &&& (selected.modified_at matches Some(a) && active.modified_at matches Some(b) && !same_hash(selected, active)
                && time_lt(a, b)) ==> choice == ResolutionChoice::KeepDestination && resolution_outcome(f, choice)
                == Err::<(), SwapError>(SwapError::CancelledKeepDestination)
            &&& f == SaveFreshness::DestinationNewer ==> resolution_outcome(f, choice) is Err
            &&& (f == SaveFreshness::Equal || f == SaveFreshness::Unknown) ==> choice == ResolutionChoice::CancelOperation
                && resolution_outcome(f, choice) is Err
        }),
{
    if let (Some(a), Some(b)) = (selected.modified_at, active.modified_at) {
        if time_lt(b, a) {
            assert(!time_lt(a, b));
        }
    }
}

/// `resolve_conflict_choice`: the user's explicit choice wins; otherwise the
/// configured policy decides.
pub fn resolve_conflict_choice(
    explicit_choice: Option<ResolutionChoice>,
    comparison: &ConflictComparison,
    policy: ConflictPolicy,
) -> (c: ResolutionChoice)
    ensures
        c == match explicit_choice {
            Some(x) => x,
            None => policy_choice(policy, comparison.freshness),
        },
{
    match explicit_choice {
        Some(choice) => choice,
        None => choice_from_policy(policy, comparison.freshness),
    }
}

pub open spec fn warning_text(selected: SaveRecord, existing_active: Option<SaveRecord>) -> Seq<char> {
    match existing_active {
        Some(active) => "Warning: swapping '"@ + selected.file_name@ + "' will replace active save '"@
            + active.file_name@
            + "'. The active file is staged to vault first, but confirm before continuing."@,
        None => "Warning: swapping '"@ + selected.file_name@
            + "' writes directly into the active save directory."@,
    }
}

/// `destructive_swap_warning`: names the file that will be written and, when
/// one exists, the active save it replaces.
pub fn destructive_swap_warning(selected: &SaveRecord, existing_active: Option<&SaveRecord>) -> (w: String)
    ensures
        w@ == warning_text(*selected, match existing_active {
            Some(a) => Some(*a),
            None => None,
        }),
{
    match existing_active {
        Some(active) => {
            let mut w = owned("Warning: swapping '");
            w.push_str(selected.file_name.as_str());
            w.push_str("' will replace active save '");
            w.push_str(active.file_name.as_str());
            w.push_str("'. The active file is staged to vault first, but confirm before continuing.");
            w
        },
        None => {
            let mut w = owned("Warning: swapping '");
            w.push_str(selected.file_name.as_str());
            w.push_str("' writes directly into the active save directory.");
            w
        },
    }
}

/// The character kept by `sanitize_segment`.
pub open spec fn safe_char(c: char) -> char {
    if is_ascii_alphanumeric(c) || c == '-' || c == '_' || c == ' ' {
        c
    } else {
        '_'
    }
}

/// `sanitize_segment`: a folder name made of ASCII letters, digits, `-`, `_`
/// and spaces (anything else becomes `_`), trimmed, or "UnknownGame" when
/// nothing is left.
pub open spec fn sanitized(value: Seq<char>) -> Seq<char> {
    let t = trim(Seq::new(value.len(), |i: int| safe_char(value[i])));
    if t.len() == 0 {
        "UnknownGame"@
    } else {
        t
    }
}

pub fn sanitize_segment(value: &str) -> (out: String)
    ensures
        out@ == sanitized(value@),
{
    let cs = crate::text::chars_of(value);
    let ghost mapped = Seq::new(value@.len(), |i: int| safe_char(value@[i]));
    let mut out = String::new();
    let n = cs.len();
    for i in 0..n
        invariant
            n == cs@.len(),
            cs@ == value@,
            mapped == Seq::new(value@.len(), |i: int| safe_char(value@[i])),
            out@ == mapped.take(i as int),
    {
        let ch = cs[i];
        let keep = ('0' <= ch && ch <= '9') || ('a' <= ch && ch <= 'z') || ('A' <= ch && ch <= 'Z')
            || ch == '-' || ch == '_' || ch == ' ';
        if keep {
            out.push(ch);
        } else {
            out.push('_');
        }
        assert(out@ =~= mapped.take(i + 1));
    }
    assert(mapped.take(n as int) =~= mapped);
    let t = trimmed(out.as_str());
    if t.as_str().is_empty() {
        owned("UnknownGame")
    } else {
        t
    }
}

/// The vault folder that holds a game's saves.
pub open spec fn game_vault_dir_text(vault_root: Seq<char>, game_name: Seq<char>) -> Seq<char> {
    join_text(vault_root, sanitized(game_name))
}

pub fn game_vault_dir(vault_root: &str, game_name: &str) -> (d: String)
    ensures
        d@ == game_vault_dir_text(vault_root@, game_name@),
{
    let segment = sanitize_segment(game_name);
    join(vault_root, segment.as_str())
}

/// The number of numbered names a free-name search tries after the plain one.
pub const UNIQUE_ATTEMPTS: u32 = 5000;

pub open spec fn stem_text(file_name_text: Seq<char>) -> Seq<char> {
    match file_name_of(file_name_text) {
        Some(f) => stem_of_name(f),
        None => "save"@,
    }
}

pub open spec fn ext_text(file_name_text: Seq<char>) -> Seq<char> {
    match file_name_of(file_name_text) {
        Some(f) => match extension_of_name(f) {
            Some(e) => e,
            None => Seq::empty(),
        },
        None => Seq::empty(),
    }
}

/// The file name a free-name search tries at `attempt`: the plain name
/// first, then `stem_STAMP_N[.ext]` for N from 1 to 5000, and finally
/// `stem_STAMP_overflow`.
pub open spec fn candidate_name(file_name_text: Seq<char>, stamp: Seq<char>, attempt: nat) -> Seq<char> {
    if attempt == 0 {
        file_name_text
    } else if attempt <= UNIQUE_ATTEMPTS {
        let base = stem_text(file_name_text) + "_"@ + stamp + "_"@ + decimal(attempt);
        let ext = ext_text(file_name_text);
        if ext.len() == 0 {
            base
        } else {
            base + "."@ + ext
        }
    } else {
        stem_text(file_name_text) + "_"@ + stamp + "_overflow"@
    }
}

/// The path a free-name search tries at `attempt` in `vault_dir`.
pub open spec fn candidate_text(vault_dir: Seq<char>, file_name_text: Seq<char>, stamp: Seq<char>, attempt: nat) -> Seq<char> {
    join_text(vault_dir, candidate_name(file_name_text, stamp, attempt))
}

/// The `attempt`-th name for a copy of `file_name` in `vault_dir`. The caller
/// tries attempts in order and takes the first that does not exist, or the
/// last one (attempt 5001) unconditionally.
pub fn destination_candidate(vault_dir: &str, file_name_text: &str, now: &UtcTime, attempt: u32) -> (c: String)
    ensures
        c@ == candidate_text(vault_dir@, file_name_text@, compact_stamp_text(now.secs_of(), now.nanos_of()), attempt as nat),
{
    if attempt == 0 {
        return join(vault_dir, file_name_text);
    }
    let stamp = compact_stamp(now);
    let stem = match file_name(file_name_text) {
        Some(f) => stem_of(f.as_str()),
        None => owned("save"),
    };
    let ext = match file_name(file_name_text) {
        Some(f) => match extension_of(f.as_str()) {
            Some(e) => e,
            None => String::new(),
        },
        None => String::new(),
    };
    assert(stem@ == stem_text(file_name_text@));
    assert(ext@ == ext_text(file_name_text@));
    let ghost st = compact_stamp_text(now.secs_of(), now.nanos_of());
    let mut base = owned(stem.as_str());
    base.push_str("_");
    base.push_str(stamp.as_str());
    base.push_str("_");
    assert(base@ =~= stem@ + "_"@ + st + "_"@);
    if attempt <= UNIQUE_ATTEMPTS {
        base.push_str(u64_text(attempt as u64).as_str());
        assert(base@ =~= stem_text(file_name_text@) + "_"@ + st + "_"@ + decimal(attempt as nat));
        if ext.as_str().is_empty() {
            join(vault_dir, base.as_str())
        } else {
            let ghost b0 = base@;
            base.push_str(".");
            base.push_str(ext.as_str());
            assert(base@ =~= b0 + "."@ + ext_text(file_name_text@));
            join(vault_dir, base.as_str())
        }
    } else {
        base.push_str("overflow");
        assert("_"@ + "overflow"@ =~= "_overflow"@) by {
            reveal_strlit("_");
            reveal_strlit("overflow");
            reveal_strlit("_overflow");
        }
        assert(base@ =~= stem_text(file_name_text@) + "_"@ + st + "_overflow"@);
        join(vault_dir, base.as_str())
    }
}

/// `dest` is one of the names a free-name search can pick for a copy of
/// `file_name_text` in `vault_dir` (for some time stamp and attempt).
pub open spec fn free_name_for(vault_dir: Seq<char>, file_name_text: Seq<char>, dest: Seq<char>) -> bool {
    exists|stamp: Seq<char>, attempt: nat|
        stamp_chars(stamp) && dest == #[trigger] candidate_text(vault_dir, file_name_text, stamp, attempt)
}

/// The search for a free name for a copy in a vault folder: the
/// plain name is probed first, then the numbered names in order; the first one
/// that does not exist is taken, and after the last numbered one the overflow
/// name is taken without a probe.
pub struct FreeNameSearch {
    vault_dir: String,
    file_name: String,
    now: UtcTime,
    attempt: u32,
}

/// What the search needs next.
pub enum SearchStep {
    /// Report whether a file exists at this path.
    Probe(String),
    /// The name taken.
    Chosen(String),
}

impl FreeNameSearch {
    /// The numbered names carry a stamp of digits and signs.
    #[verifier::type_invariant]
    spec fn stamp_is_numeric(self) -> bool {
        stamp_chars(compact_stamp_text(self.now.secs_of(), self.now.nanos_of()))
    }

    pub closed spec fn dir_of(self) -> Seq<char> {
        self.vault_dir@
    }

    pub closed spec fn name_of(self) -> Seq<char> {
        self.file_name@
    }

    /// The time stamp the numbered names carry.
    pub closed spec fn stamp_of(self) -> Seq<char> {
        compact_stamp_text(self.now.secs_of(), self.now.nanos_of())
    }

    pub closed spec fn attempt_of(self) -> nat {
        self.attempt as nat
    }

    /// The path being probed.
    pub open spec fn probe_of(self) -> Seq<char> {
        candidate_text(self.dir_of(), self.name_of(), self.stamp_of(), self.attempt_of())
    }

    /// Starts a search for a free name for `file_name_text` in `vault_dir`,
    /// stamped with the current time; the first probe is the plain name.
    pub fn start(vault_dir: &str, file_name_text: &str) -> (r: (FreeNameSearch, String))
        ensures
            r.0.dir_of() == vault_dir@,
            r.0.name_of() == file_name_text@,
            r.0.attempt_of() == 0,
            r.1@ == r.0.probe_of(),
            r.1@ == join_text(vault_dir@, file_name_text@),
    {
        let now = crate::time::now_utc();
        // the stamp the numbered names will carry: digits and signs only
        let _stamp = compact_stamp(&now);
        let search = FreeNameSearch { vault_dir: owned(vault_dir), file_name: owned(file_name_text), now, attempt: 0 };
        let first = destination_candidate(vault_dir, file_name_text, &now, 0);
        (search, first)
    }

    /// Takes whether the probed path exists: a free path is taken; otherwise
    /// the next numbered name is probed, or after the last one the overflow
    /// name is taken.
    pub fn on_probe(&mut self, exists: bool) -> (step: SearchStep)
        ensures
            final(self).dir_of() == old(self).dir_of(),
            final(self).name_of() == old(self).name_of(),
            final(self).stamp_of() == old(self).stamp_of(),
            !exists ==> (step matches SearchStep::Chosen(c) && c@ == old(self).probe_of()),
            exists && old(self).attempt_of() < UNIQUE_ATTEMPTS ==> {
                &&& final(self).attempt_of() == old(self).attempt_of() + 1
                &&& step matches SearchStep::Probe(p) && p@ == final(self).probe_of()
            },
            exists && old(self).attempt_of() >= UNIQUE_ATTEMPTS ==> (step matches SearchStep::Chosen(c) && c@
                == candidate_text(old(self).dir_of(), old(self).name_of(), old(self).stamp_of(), (UNIQUE_ATTEMPTS + 1) as nat)),
            step matches SearchStep::Chosen(c) ==> free_name_for(old(self).dir_of(), old(self).name_of(), c@),
    {
        proof {
            use_type_invariant(&*self);
        }
        if !exists {
            let c = destination_candidate(self.vault_dir.as_str(), self.file_name.as_str(), &self.now, self.attempt);
            assert(c@ == candidate_text(self.dir_of(), self.name_of(), self.stamp_of(), self.attempt_of()));
            return SearchStep::Chosen(c);
        }
        if self.attempt < UNIQUE_ATTEMPTS {
            self.attempt = self.attempt + 1;
            SearchStep::Probe(destination_candidate(self.vault_dir.as_str(), self.file_name.as_str(), &self.now, self.attempt))
        } else {
            let c = destination_candidate(self.vault_dir.as_str(), self.file_name.as_str(), &self.now, UNIQUE_ATTEMPTS + 1);
            assert(c@ == candidate_text(self.dir_of(), self.name_of(), self.stamp_of(), (UNIQUE_ATTEMPTS + 1) as nat));
            SearchStep::Chosen(c)
        }
    }
}

proof fn lemma_no_sep_concat(a: Seq<char>, b: Seq<char>)
    requires
        no_sep(a),
        no_sep(b),
    ensures
        no_sep(a + b),
{
    assert forall|i: int| 0 <= i < (a + b).len() implies (a + b)[i] != '/' by {
        if i < a.len() {
            assert((a + b)[i] == a[i]);
        } else {
            assert((a + b)[i] == b[i - a.len()]);
        }
    }
}

proof fn lemma_decimal_no_sep(n: nat)
    ensures
        no_sep(decimal(n)),
        decimal(n).len() > 0,
    decreases n,
{
    if n >= 10 {
        lemma_decimal_no_sep(n / 10);
        let d = (n % 10) as nat;
        assert(digit_char(d) != '/') by {
            assert(48 + d <= 57);
        }
        let t = decimal(n / 10).push(digit_char(d));
        assert forall|i: int| 0 <= i < t.len() implies t[i] != '/' by {
            if i < t.len() - 1 {
                assert(t[i] == decimal(n / 10)[i]);
            }
        }
    } else {
        assert(digit_char(n) != '/') by {
            assert(48 + n <= 57);
        }
    }
}

proof fn lemma_plain_file_name(f: Seq<char>)
    requires
        plain_name(f),
    ensures
        file_name_of(f) == Some(f),
{
    lemma_join_plain_name(Seq::<char>::empty(), f);
    assert(join_text(Seq::<char>::empty(), f) == f);
    crate::platform::fs::lemma_comps_empty();
    assert(comps(f) =~= seq![f]);
    assert(f != root_comp()) by {
        assert(root_comp()[0] == '/');
        if f == root_comp() {
            assert(f[0] == '/');
        }
    }
}

/// Every name a free-name search tries for a plain file name is itself a
/// plain name.
proof fn lemma_candidate_name_plain(f: Seq<char>, stamp: Seq<char>, attempt: nat)
    requires
        plain_name(f),
        stamp_chars(stamp),
    ensures
        plain_name(candidate_name(f, stamp, attempt)),
{
    if attempt > 0 {
        lemma_plain_file_name(f);
        let stem = stem_text(f);
        assert(no_sep(stem)) by {
            lemma_last_dot_bounds(f);
            if last_dot(f) > 0 {
                assert forall|i: int| 0 <= i < stem.len() implies stem[i] != '/' by {
                    assert(stem[i] == f[i]);
                }
            }
        }
        assert(no_sep(stamp)) by {
            assert forall|i: int| 0 <= i < stamp.len() implies stamp[i] != '/' by {
                assert(('0' <= stamp[i] <= '9') || stamp[i] == '+' || stamp[i] == '-');
            }
        }
        reveal_strlit("_");
        reveal_strlit("_overflow");
        reveal_strlit(".");
        assert(no_sep("_"@));
        assert(no_sep("_overflow"@));
        assert(no_sep("."@));
        lemma_no_sep_concat(stem, "_"@);
        lemma_no_sep_concat(stem + "_"@, stamp);
        let head = stem + "_"@ + stamp;
        assert(head[stem.len() as int] == '_');
        if attempt <= UNIQUE_ATTEMPTS {
            lemma_decimal_no_sep(attempt);
            lemma_no_sep_concat(head, "_"@);
            lemma_no_sep_concat(head + "_"@, decimal(attempt));
            let base = head + "_"@ + decimal(attempt);
            assert(base.len() >= 3);
            assert(base[stem.len() as int] == '_');
            let ext = ext_text(f);
            if ext.len() > 0 {
                assert(no_sep(ext)) by {
                    lemma_last_dot_bounds(f);
                    assert forall|i: int| 0 <= i < ext.len() implies ext[i] != '/' by {
                        assert(ext[i] == f[last_dot(f) + 1 + i]);
                    }
                }
                lemma_no_sep_concat(base, "."@);
                lemma_no_sep_concat(base + "."@, ext);
                let full = base + "."@ + ext;
                assert(full[stem.len() as int] == '_');
                assert(full.len() >= 3);
            }
        } else {
            lemma_no_sep_concat(head, "_overflow"@);
            let full = head + "_overflow"@;
            assert(full.len() >= 3);
            assert(full[stem.len() as int] == '_');
        }
    }
}

/// A copy stored under a free name, a backup or the active save staged by a
/// swap, lies directly in the vault folder: the folder's path components
/// followed by one plain name.
pub proof fn law_free_name_in_folder(vault_dir: Seq<char>, source: Seq<char>, dest: Seq<char>)
    requires
        free_name_for(vault_dir, staged_name(source), dest),
    ensures
        path_starts_with(dest, vault_dir),
        comps(dest).len() == comps(vault_dir).len() + 1,
{
    let name = staged_name(source);
    assert(plain_name(name)) by {
        match file_name_of(source) {
            Some(f) => {
                lemma_comps_valid(source);
                let c = comps(source);
                assert(f == c[c.len() - 1]);
                assert(no_sep(c[c.len() - 1]));
            },
            None => {
                reveal_strlit("save.dat");
            },
        }
    }
    let (stamp, attempt) = choose|stamp: Seq<char>, attempt: nat|
        stamp_chars(stamp) && dest == #[trigger] candidate_text(vault_dir, name, stamp, attempt);
    lemma_candidate_name_plain(name, stamp, attempt);
    lemma_join_plain_name(vault_dir, candidate_name(name, stamp, attempt));
    assert(comps(dest).subrange(0, comps(vault_dir).len() as int) =~= comps(vault_dir));
}

/// The record of the save currently in the active directory (`read_active_save_record`).
pub open spec fn active_record_fits(game: GameRecord, path: Seq<char>, metadata: SaveMetadata, r: SaveRecord) -> bool {
    &&& r.id@ == "active:"@ + game.id@ + ":"@ + unicode_lowercase(path)
    &&& r.game_id == game.id
    &&& r.file_name@ == match file_name_of(path) {
        Some(f) => f,
        None => "save.dat"@,
    }
    &&& r.absolute_path@ == path
    &&& r.origin == SaveOrigin::ActiveDirectory
    &&& r.label is None
    &&& r.note is None
    &&& r.label_color is None
    &&& r.metadata == metadata
    &&& r.archived_at is None
}

pub fn read_active_save_record(game: &GameRecord, active_path: &str, metadata: SaveMetadata) -> (r: SaveRecord)
    ensures
        active_record_fits(*game, active_path@, metadata, r),
{
    let file = match file_name(active_path) {
        Some(f) => f,
        None => owned("save.dat"),
    };
    let mut id = owned("active:");
    id.push_str(game.id.as_str());
    id.push_str(":");
    id.push_str(lowercase(active_path).as_str());
    SaveRecord {
        id,
        game_id: game.id.clone(),
        file_name: file,
        absolute_path: owned(active_path),
        origin: SaveOrigin::ActiveDirectory,
        label: None,
        note: None,
        label_color: None,
        metadata,
        archived_at: None,
    }
}


/// The file work that undoes a swap: remove the file placed at the active
/// path (when it is a file), then move the staged save back (when there is one
/// and it is a file).
pub struct RollbackPlan {
    pub remove_active: Option<String>,
    pub restore: Option<(String, String)>,
}

/// The plan undoes the swap at `active` with the staged save `staged`: remove
/// the active path when it is a file; move the staged save back when there is
/// one and it is a file.
pub open spec fn planned_rollback(
    active: Seq<char>,
    staged: Option<Seq<char>>,
    active_probe: PathProbe,
    staged_probe: PathProbe,
    plan: RollbackPlan,
) -> bool {
    &&& (active_probe.exists && active_probe.is_file) ==> (plan.remove_active matches Some(p) && p@ == active)
    &&& !(active_probe.exists && active_probe.is_file) ==> plan.remove_active is None
    &&& match staged {
        Some(s) => if staged_probe.exists && staged_probe.is_file {
            plan.restore matches Some((from, to)) && from@ == s && to@ == active
        } else {
            plan.restore is None
        },
        None => plan.restore is None,
    }
}

/// Regular files by path, with their contents.
pub type FileState = Map<Seq<char>, Seq<u8>>;

/// `from` renamed to `to`.
pub open spec fn moved(fs: FileState, from: Seq<char>, to: Seq<char>) -> FileState {
    fs.remove(from).insert(to, fs[from])
}

/// `from` copied over `to`.
pub open spec fn copied(fs: FileState, from: Seq<char>, to: Seq<char>) -> FileState {
    fs.insert(to, fs[from])
}

/// What the file system reports of `p`.
pub open spec fn probe_in(fs: FileState, p: Seq<char>) -> PathProbe {
    PathProbe { exists: fs.dom().contains(p), is_dir: false, is_file: fs.dom().contains(p) }
}

/// The files after a swap of `source` into `active`: an existing active save
/// moved to `staged` (`StageActive`), then, when the copy took place,
/// `source` copied over `active` (`CopyIntoPlace`).
pub open spec fn after_swap(fs: FileState, active: Seq<char>, source: Seq<char>, staged: Option<Seq<char>>, placed: bool) -> FileState {
    let staged_fs = match staged {
        Some(s) => moved(fs, active, s),
        None => fs,
    };
    if placed {
        copied(staged_fs, source, active)
    } else {
        staged_fs
    }
}

/// The files after carrying out a rollback plan.
pub open spec fn after_rollback(fs: FileState, plan: RollbackPlan) -> FileState {
    let removed = match plan.remove_active {
        Some(p) => fs.remove(p@),
        None => fs,
    };
    match plan.restore {
        Some((from, to)) => moved(removed, from@, to@),
        None => removed,
    }
}

/// A swap followed by its rollback gives back the files as they were: the
/// active path holds the old save again when there was one and is gone when
/// there was none, and the staged copy is gone. This holds whether or not the
/// copy into place took place, for the plan `rollback_user_swap` makes from
/// what the file system reports after the swap, when (as the swap machine
/// ensures) an active save was staged exactly when one existed, under a name
/// that was free and is neither the active path nor the source.
pub proof fn law_rollback_restores(
    fs: FileState,
    active: Seq<char>,
    source: Seq<char>,
    staged: Option<Seq<char>>,
    placed: bool,
    plan: RollbackPlan,
)
    requires
        fs.dom().contains(source),
        source != active,
        staged is Some <==> fs.dom().contains(active),
        staged matches Some(s) ==> s != active && s != source && !fs.dom().contains(s),
        planned_rollback(
            active,
            staged,
            probe_in(after_swap(fs, active, source, staged, placed), active),
            match staged {
                Some(s) => probe_in(after_swap(fs, active, source, staged, placed), s),
                None => PathProbe { exists: false, is_dir: false, is_file: false },
            },
            plan,
        ),
    ensures
        after_rollback(after_swap(fs, active, source, staged, placed), plan) == fs,
{
    let after = after_swap(fs, active, source, staged, placed);
    match staged {
        Some(s) => {
            let restored = after_rollback(after, plan);
            assert(restored =~= fs);
        },
        None => {
            let restored = after_rollback(after, plan);
            assert(restored =~= fs);
        },
    }
}

/// `rollback_user_swap`: what undoing a swap does, given what the file system
/// reports of the active path and of the staged save.
pub fn rollback_user_swap(
    active_destination_path: &str,
    staged_backup_path: Option<&str>,
    active: PathProbe,
    staged: PathProbe,
) -> (r: RollbackPlan)
    ensures
        planned_rollback(
            active_destination_path@,
            match staged_backup_path {
                Some(s) => Some(s@),
                None => None,
            },
            active,
            staged,
            r,
        ),
{
    let remove_active = if active.exists && active.is_file {
        Some(owned(active_destination_path))
    } else {
        None
    };
    let restore = match staged_backup_path {
        Some(s) => if staged.exists && staged.is_file {
            Some((owned(s), owned(active_destination_path)))
        } else {
            None
        },
        None => None,
    };
    RollbackPlan { remove_active, restore }
}

/// A rollback step that failed.
pub enum RollbackError {
    RemoveFailed(String),
    RestoreFailed { from: String, to: String },
}

impl RollbackError {
    pub open spec fn text(&self) -> Seq<char> {
        match self {
            RollbackError::RemoveFailed(p) => "rollback failed to remove partially swapped file "@ + p@,
            RollbackError::RestoreFailed { from, to } => "rollback failed to restore staged backup "@ + from@
                + " back to "@ + to@,
        }
    }

    /// The message shown for this error.
    pub fn message(&self) -> (m: String)
        ensures
            m@ == self.text(),
    {
        match self {
            RollbackError::RemoveFailed(p) => concat2("rollback failed to remove partially swapped file ", p.as_str()),
            RollbackError::RestoreFailed { from, to } => {
                let mut m = owned("rollback failed to restore staged backup ");
                m.push_str(from.as_str());
                m.push_str(" back to ");
                m.push_str(to.as_str());
                m
            },
        }
    }
}

pub struct SwapTransactionRequest {
    pub game: GameRecord,
    pub selected_vault_save: SaveRecord,
    pub resolution_choice: Option<ResolutionChoice>,
    pub confirmed_destructive_action: bool,
}

pub struct SwapTransactionResult {
    pub staged_active_backup_path: Option<String>,
    pub active_destination_path: String,
    pub active_metadata: SaveMetadata,
}

/// Where a swap transaction stands.
#[derive(Clone, Copy, Debug, PartialEq, Eq, Structural)]
pub enum SwapPhase {
    AwaitPreflight,
    AwaitActiveProbe,
    AwaitActiveMetadata,
    AwaitPolicy,
    AwaitVaultRoot,
    AwaitVaultDir,
    AwaitStagingName,
    AwaitStaging,
    AwaitCopy,
    AwaitPlacedMetadata,
    AwaitRollback,
    AwaitFinalMetadata,
    Finished,
}

/// The next piece of file-system work a swap needs.
pub enum SwapAction {
    /// Probe the source file and the destination directory (`preflight_check`).
    RunPreflight(SwapPreflightRequest),
    /// Report whether a file exists at `path`.
    ProbeActive { path: String },
    /// Read the metadata of the active save at `path`.
    ReadActiveMetadata { path: String },
    /// Read the configured conflict policy.
    LoadConflictPolicy,
    /// Read the configured vault root.
    LoadVaultRoot,
    /// Create the directory `path` (and its parents).
    EnsureVaultDir { path: String },
    /// Report whether a file exists at `path` (a name tried for the staged save).
    ProbeStagingPath { path: String },
    /// Move the active save at `active_path` to `staged_path`.
    StageActive { active_path: String, staged_path: String },
    /// Copy `from` over `to`.
    CopyIntoPlace { from: String, to: String },
    /// Read the metadata of the copy just placed at `path`.
    ReadPlacedMetadata { path: String },
    /// Remove the placed file at `active_path` and move the staged save back there.
    Rollback { active_path: String, staged_path: Option<String> },
    /// Read the metadata of the swapped-in save at `path`.
    ReadFinalMetadata { path: String },
    /// The transaction is over; see `SwapMachine::outcome`.
    Finish,
}

/// What the file-system work reported.
pub enum SwapEvent {
    Preflight(SwapPreflightReport),
    ActiveProbed { exists: bool },
    ActiveMetadata(Result<SaveMetadata, String>),
    ConflictPolicyLoaded(Result<ConflictPolicy, String>),
    VaultRoot(Result<String, String>),
    VaultDirReady(Result<(), String>),
    StagingPathExists(bool),
    Staged(Result<(), String>),
    Copied(Result<(), String>),
    PlacedMetadata(Result<SaveMetadata, String>),
    RolledBack(Result<(), String>),
    FinalMetadata(Result<SaveMetadata, String>),
}

/// The decisions of `execute_swap_transaction`, one reported outcome at a time.
pub struct SwapMachine {
    request: SwapTransactionRequest,
    active_path: String,
    phase: SwapPhase,
    active_record: Option<SaveRecord>,
    comparison: Option<ConflictComparison>,
    vault_dir: String,
    search: Option<FreeNameSearch>,
    staging_target: String,
    staged: Option<String>,
    verified: bool,
    pending: Option<SwapError>,
    outcome: Option<Result<SwapTransactionResult, SwapError>>,
    recovered_after_failure: bool,
}

/// Phases between the resolution and the staged move of the active save.
pub open spec fn staging_phase(p: SwapPhase) -> bool {
    p == SwapPhase::AwaitVaultRoot || p == SwapPhase::AwaitVaultDir || p == SwapPhase::AwaitStagingName
        || p == SwapPhase::AwaitStaging
}

/// The name the staged active save keeps: its file name, or `save.dat`.
pub open spec fn staged_name(active_path: Seq<char>) -> Seq<char> {
    match file_name_of(active_path) {
        Some(f) => f,
        None => "save.dat"@,
    }
}

/// Phases in which the selected save is (being) written over the active path.
pub open spec fn placing_phase(p: SwapPhase) -> bool {
    p == SwapPhase::AwaitCopy || p == SwapPhase::AwaitPlacedMetadata || p == SwapPhase::AwaitFinalMetadata
}

impl SwapMachine {
    /// The facts every step keeps: the active path is the game's save folder
    /// joined with the selected file name; an existing active save is only
    /// handled after confirmation; nothing is staged unless an active save
    /// existed; once an existing active save is being replaced it has been
    /// staged, under a free name in the game's vault folder; the final read
    /// only follows a verified placement; a rollback
    /// always has the failure it answers; and a successful outcome was verified.
    pub closed spec fn well_formed(self) -> bool {
        &&& self.active_path@ == join_text(
            self.request.game.active_save_dir@,
            self.request.selected_vault_save.file_name@,
        )
        &&& self.active_record is Some ==> self.request.confirmed_destructive_action
        &&& self.staged is Some ==> self.active_record is Some
        &&& (self.phase == SwapPhase::AwaitPreflight || self.phase == SwapPhase::AwaitActiveProbe
            || self.phase == SwapPhase::AwaitActiveMetadata) ==> self.active_record is None
        &&& placing_phase(self.phase) && self.active_record is Some ==> self.staged is Some
        &&& self.phase == SwapPhase::AwaitFinalMetadata ==> self.verified
        &&& self.phase == SwapPhase::AwaitRollback ==> self.pending is Some
        &&& (self.phase == SwapPhase::Finished) == (self.outcome is Some)
        &&& (self.outcome matches Some(Ok(_)) ==> self.verified)
        &&& (self.recovered_after_failure ==> self.outcome matches Some(Err(_)))
        &&& (self.phase == SwapPhase::AwaitPolicy || staging_phase(self.phase))
            ==> self.active_record is Some && self.comparison is Some && self.staged is None
        &&& self.phase == SwapPhase::AwaitStagingName ==> (self.search matches Some(s) && s.dir_of()
            == self.vault_dir@ && s.name_of() == staged_name(self.active_path@))
        &&& self.phase == SwapPhase::AwaitStaging ==> free_name_for(
            self.vault_dir@,
            staged_name(self.active_path@),
            self.staging_target@,
        )
        &&& self.staged matches Some(p) ==> free_name_for(self.vault_dir@, staged_name(self.active_path@), p@)
        &&& self.comparison matches Some(c) ==> self.active_record matches Some(a) && c.freshness
            == freshness_of(self.request.selected_vault_save.metadata, a.metadata)
    }

    pub closed spec fn request_of(self) -> SwapTransactionRequest {
        self.request
    }

    pub closed spec fn active_path_of(self) -> Seq<char> {
        self.active_path@
    }

    pub closed spec fn phase_of(self) -> SwapPhase {
        self.phase
    }

    /// The active save that existed when the swap started, once read.
    pub closed spec fn active_record_of(self) -> Option<SaveRecord> {
        self.active_record
    }

    /// Where the replaced active save was staged, once it was.
    pub closed spec fn staged_of(self) -> Option<String> {
        self.staged
    }

    /// The game's vault folder, once the vault root was read.
    pub closed spec fn vault_dir_of(self) -> Seq<char> {
        self.vault_dir@
    }

    /// The free-name search for the staged save.
    pub closed spec fn search_of(self) -> Option<FreeNameSearch> {
        self.search
    }

    /// The name chosen for the staged save, once chosen.
    pub closed spec fn staging_target_of(self) -> Seq<char> {
        self.staging_target@
    }

    /// The placed copy matched the selected save in size and hash.
    pub closed spec fn verified_of(self) -> bool {
        self.verified
    }

    pub closed spec fn pending_of(self) -> Option<SwapError> {
        self.pending
    }

    pub closed spec fn outcome_of(self) -> Option<Result<SwapTransactionResult, SwapError>> {
        self.outcome
    }

    /// A failed placement was rolled back successfully.
    pub closed spec fn recovered_of(self) -> bool {
        self.recovered_after_failure
    }

    /// Starts a swap of `selected_vault_save` into the game's active directory;
    /// the first step is the preflight.
    pub fn start(request: SwapTransactionRequest) -> (r: (SwapMachine, SwapAction))
        ensures
            r.0.well_formed(),
            r.0.request_of() == request,
            r.0.phase_of() == SwapPhase::AwaitPreflight,
            r.0.active_path_of() == join_text(
                request.game.active_save_dir@,
                request.selected_vault_save.file_name@,
            ),
            r.0.active_record_of() is None,
            r.0.staged_of() is None,
            !r.0.recovered_of(),
            r.1 matches SwapAction::RunPreflight(p) && p.source_save == request.selected_vault_save
                && p.destination_dir == request.game.active_save_dir,
    {
        let active_path = join(
            request.game.active_save_dir.as_str(),
            request.selected_vault_save.file_name.as_str(),
        );
        let preflight = SwapPreflightRequest {
            source_save: request.selected_vault_save.duplicate(),
            destination_dir: request.game.active_save_dir.clone(),
        };
        let m = SwapMachine {
            request,
            active_path,
            phase: SwapPhase::AwaitPreflight,
            active_record: None,
            comparison: None,
            vault_dir: String::new(),
            search: None,
            staging_target: String::new(),
            staged: None,
            verified: false,
            pending: None,
            outcome: None,
            recovered_after_failure: false,
        };
        (m, SwapAction::RunPreflight(preflight))
    }

    /// The result once finished, and whether a failed placement was rolled back.
    pub fn outcome(&self) -> (r: (Option<&Result<SwapTransactionResult, SwapError>>, bool))
        ensures
            r.0 == match self.outcome_of() {
                Some(o) => Some(&o),
                None => None::<&Result<SwapTransactionResult, SwapError>>,
            },
            r.1 == self.recovered_of(),
    {
        (self.outcome.as_ref(), self.recovered_after_failure)
    }

    pub fn phase(&self) -> (p: SwapPhase)
        ensures
            p == self.phase_of(),
    {
        self.phase
    }

    fn finish(&mut self, result: Result<SwapTransactionResult, SwapError>) -> (a: SwapAction)
        requires
            old(self).well_formed(),
            result is Ok ==> old(self).verified,
            !old(self).recovered_after_failure || result is Err,
        ensures
            final(self).well_formed(),
            a is Finish,
            final(self).phase == SwapPhase::Finished,
            final(self).outcome == Some(result),
            final(self).request == old(self).request,
            final(self).active_path == old(self).active_path,
            final(self).active_record == old(self).active_record,
            final(self).comparison == old(self).comparison,
            final(self).staged == old(self).staged,
            final(self).verified == old(self).verified,
            final(self).pending == old(self).pending,
            final(self).recovered_after_failure == old(self).recovered_after_failure,
            final(self).vault_dir == old(self).vault_dir,
    {
        self.outcome = Some(result);
        self.phase = SwapPhase::Finished;
        SwapAction::Finish
    }

    fn copy_action(&self) -> (a: SwapAction)
        ensures
            a matches SwapAction::CopyIntoPlace { from, to } && from@
                == self.request.selected_vault_save.absolute_path@ && to@ == self.active_path@,
    {
        SwapAction::CopyIntoPlace {
            from: self.request.selected_vault_save.absolute_path.clone(),
            to: self.active_path.clone(),
        }
    }

    fn rollback(&mut self, error: SwapError) -> (a: SwapAction)
        requires
            old(self).well_formed(),
            old(self).phase == SwapPhase::AwaitCopy || old(self).phase == SwapPhase::AwaitPlacedMetadata,
        ensures
            final(self).well_formed(),
            final(self).phase == SwapPhase::AwaitRollback,
            final(self).pending == Some(error),
            a matches SwapAction::Rollback { active_path, staged_path } && active_path@
                == final(self).active_path@ && staged_path == final(self).staged,
            final(self).request == old(self).request,
            final(self).active_path == old(self).active_path,
            final(self).active_record == old(self).active_record,
            final(self).comparison == old(self).comparison,
            final(self).staged == old(self).staged,
            final(self).verified == old(self).verified,
            final(self).outcome == old(self).outcome,
            final(self).recovered_after_failure == old(self).recovered_after_failure,
            final(self).vault_dir == old(self).vault_dir,
    {
        self.pending = Some(error);
        self.phase = SwapPhase::AwaitRollback;
        SwapAction::Rollback {
            active_path: self.active_path.clone(),
            staged_path: crate::text::clone_opt(&self.staged),
        }
    }

    fn decide(&mut self, choice: ResolutionChoice) -> (a: SwapAction)
        requires
            old(self).well_formed(),
            old(self).phase == SwapPhase::AwaitPolicy,
            old(self).active_record is Some,
            old(self).comparison is Some,
        ensures
            final(self).well_formed(),
            match resolution_outcome(old(self).comparison.unwrap().freshness, choice) {
                Ok(_) => final(self).phase == SwapPhase::AwaitVaultRoot && a is LoadVaultRoot,
                Err(e) => a is Finish && final(self).outcome == Some(
                    Err::<SwapTransactionResult, SwapError>(e),
                ),
            },
            final(self).request == old(self).request,
            final(self).active_path == old(self).active_path,
            final(self).active_record == old(self).active_record,
            final(self).comparison == old(self).comparison,
            final(self).staged == old(self).staged,
            final(self).recovered_after_failure == old(self).recovered_after_failure,
            final(self).vault_dir == old(self).vault_dir,
    {
        let verdict = match &self.comparison {
            Some(c) => apply_resolution_choice(choice, c),
            None => Err(SwapError::UnexpectedEvent),
        };
        match verdict {
            Err(e) => self.finish(Err(e)),
            Ok(()) => {
                self.phase = SwapPhase::AwaitVaultRoot;
                SwapAction::LoadVaultRoot
            },
        }
    }
}


/// The event each phase waits for.
pub open spec fn expects(p: SwapPhase, e: SwapEvent) -> bool {
    match p {
        SwapPhase::AwaitPreflight => e is Preflight,
        SwapPhase::AwaitActiveProbe => e is ActiveProbed,
        SwapPhase::AwaitActiveMetadata => e is ActiveMetadata,
        SwapPhase::AwaitPolicy => e is ConflictPolicyLoaded,
        SwapPhase::AwaitVaultRoot => e is VaultRoot,
        SwapPhase::AwaitVaultDir => e is VaultDirReady,
        SwapPhase::AwaitStagingName => e is StagingPathExists,
        SwapPhase::AwaitStaging => e is Staged,
        SwapPhase::AwaitCopy => e is Copied,
        SwapPhase::AwaitPlacedMetadata => e is PlacedMetadata,
        SwapPhase::AwaitRollback => e is RolledBack,
        SwapPhase::AwaitFinalMetadata => e is FinalMetadata,
        SwapPhase::Finished => false,
    }
}

/// The step after a resolution choice: read the vault root (to stage the
/// active save in the game's vault folder) when the choice lets the swap
/// proceed, finish with the refusal otherwise.
pub open spec fn resolved_step(m: SwapMachine, a: SwapAction, f: SaveFreshness, choice: ResolutionChoice) -> bool {
    match resolution_outcome(f, choice) {
        Ok(_) => m.phase_of() == SwapPhase::AwaitVaultRoot && a is LoadVaultRoot,
        Err(e) => a is Finish && m.outcome_of() == Some(Err::<SwapTransactionResult, SwapError>(e)),
    }
}

impl SwapMachine {
    /// Takes the outcome of the last requested work and returns the next work.
    ///
    /// An existing active save is staged in the game's vault folder under the
    /// first free name for it (see `FreeNameSearch`). Whatever
    /// the events: an existing active save is never staged or overwritten
    /// without confirmation; when one existed, the selected save is
    /// only copied over the active path after the existing one was staged; a
    /// failed copy or a placed copy whose size or hash differs from the selected
    /// save is answered by a rollback that restores the staged save; and the
    /// transaction only succeeds after the placed copy was verified.
    pub fn on_event(&mut self, event: SwapEvent) -> (action: SwapAction)
        requires
            old(self).well_formed(),
        ensures
            final(self).well_formed(),
            final(self).request_of() == old(self).request_of(),
            final(self).active_path_of() == old(self).active_path_of(),
            (action is Finish) == (final(self).phase_of() == SwapPhase::Finished),
            action matches SwapAction::CopyIntoPlace { from, to } ==> {
                &&& from@ == old(self).request_of().selected_vault_save.absolute_path@
                &&& to@ == old(self).active_path_of()
                &&& final(self).phase_of() == SwapPhase::AwaitCopy
                &&& final(self).active_record_of() is Some ==> final(self).staged_of() is Some
            },
            action matches SwapAction::StageActive { active_path, staged_path } ==> {
                &&& active_path@ == old(self).active_path_of()
                &&& old(self).request_of().confirmed_destructive_action
                &&& final(self).active_record_of() is Some
                &&& staged_path@ == final(self).staging_target_of()
                &&& free_name_for(final(self).vault_dir_of(), staged_name(active_path@), staged_path@)
            },
            final(self).staged_of() matches Some(p) ==> free_name_for(
                final(self).vault_dir_of(),
                staged_name(final(self).active_path_of()),
                p@,
            ),
            old(self).phase_of() != SwapPhase::AwaitVaultRoot ==> final(self).vault_dir_of() == old(
                self,
            ).vault_dir_of(),
            old(self).phase_of() == SwapPhase::AwaitVaultRoot ==> (event matches SwapEvent::VaultRoot(res)
                ==> match res {
                Err(t) => final(self).outcome_of() == Some(
                    Err::<SwapTransactionResult, SwapError>(SwapError::Io(t)),
                ),
                Ok(root) => {
                    &&& final(self).vault_dir_of() == game_vault_dir_text(root@, old(self).request_of().game.name@)
                    &&& action matches SwapAction::EnsureVaultDir { path } && path@ == final(self).vault_dir_of()
                },
            }),
            old(self).phase_of() == SwapPhase::AwaitVaultDir ==> (event matches SwapEvent::VaultDirReady(res)
                ==> match res {
                Err(t) => final(self).outcome_of() == Some(
                    Err::<SwapTransactionResult, SwapError>(SwapError::Io(t)),
                ),
                Ok(_) => {
                    &&& action matches SwapAction::ProbeStagingPath { path } && path@ == join_text(
                        old(self).vault_dir_of(),
                        staged_name(old(self).active_path_of()),
                    )
                    &&& final(self).phase_of() == SwapPhase::AwaitStagingName
                    &&& final(self).search_of() matches Some(s) && s.attempt_of() == 0 && s.dir_of()
                        == old(self).vault_dir_of() && s.name_of() == staged_name(old(self).active_path_of())
                        && (action matches SwapAction::ProbeStagingPath { path } && s.probe_of() == path@)
                },
            }),
            old(self).phase_of() == SwapPhase::AwaitStagingName ==> {
                &&& old(self).search_of() matches Some(s) && s.dir_of() == old(self).vault_dir_of() && s.name_of()
                    == staged_name(old(self).active_path_of())
                &&& event matches SwapEvent::StagingPathExists(exists) ==> match old(self).search_of() {
                    Some(s) => if !exists {
                        action matches SwapAction::StageActive { active_path, staged_path } && active_path@
                            == old(self).active_path_of() && staged_path@ == s.probe_of()
                    } else if s.attempt_of() < UNIQUE_ATTEMPTS {
                        &&& action matches SwapAction::ProbeStagingPath { path } && path@ == candidate_text(
                            s.dir_of(),
                            s.name_of(),
                            s.stamp_of(),
                            s.attempt_of() + 1,
                        )
                        &&& final(self).phase_of() == SwapPhase::AwaitStagingName
                        &&& final(self).search_of() matches Some(t) && t.dir_of() == s.dir_of() && t.name_of()
                            == s.name_of() && t.stamp_of() == s.stamp_of() && t.attempt_of() == s.attempt_of() + 1
                            && (action matches SwapAction::ProbeStagingPath { path } && t.probe_of() == path@)
                    } else {
                        action matches SwapAction::StageActive { active_path, staged_path } && active_path@
                            == old(self).active_path_of() && staged_path@ == candidate_text(
                            s.dir_of(),
                            s.name_of(),
                            s.stamp_of(),
                            (UNIQUE_ATTEMPTS + 1) as nat,
                        )
                    },
                    None => false,
                }
            },
            action matches SwapAction::Rollback { active_path, staged_path } ==> {
                &&& active_path@ == old(self).active_path_of()
                &&& staged_path == final(self).staged_of()
                &&& final(self).phase_of() == SwapPhase::AwaitRollback
            },
            final(self).outcome_of() matches Some(Ok(_)) ==> final(self).verified_of(),
            old(self).phase_of() == SwapPhase::Finished ==> action is Finish && *final(self)
                == *old(self),
            old(self).phase_of() != SwapPhase::Finished && !expects(old(self).phase_of(), event)
                ==> final(self).outcome_of() == Some(
                Err::<SwapTransactionResult, SwapError>(SwapError::UnexpectedEvent),
            ),
            old(self).phase_of() == SwapPhase::AwaitPreflight ==> (event matches SwapEvent::Preflight(r)
                ==> if r.ready() {
                action matches SwapAction::ProbeActive { path } && path@ == old(self).active_path_of()
            } else {
                final(self).outcome_of() == Some(
                    Err::<SwapTransactionResult, SwapError>(SwapError::PreflightFailed(r)),
                )
            }),
            old(self).phase_of() == SwapPhase::AwaitActiveProbe ==> (event matches SwapEvent::ActiveProbed {
                exists,
            } ==> if exists {
                action matches SwapAction::ReadActiveMetadata { path } && path@ == old(
                    self,
                ).active_path_of()
            } else {
                action is CopyIntoPlace && final(self).active_record_of() is None
            }),
            old(self).phase_of() == SwapPhase::AwaitActiveMetadata ==> (event matches SwapEvent::ActiveMetadata(res)
                ==> match res {
                Err(t) => final(self).outcome_of() == Some(
                    Err::<SwapTransactionResult, SwapError>(SwapError::Io(t)),
                ),
                Ok(md) => if !old(self).request_of().confirmed_destructive_action {
                    final(self).outcome_of() == Some(
                        Err::<SwapTransactionResult, SwapError>(SwapError::ConfirmationRequired),
                    )
                } else {
                    &&& final(self).active_record_of() matches Some(a) && active_record_fits(
                        old(self).request_of().game,
                        old(self).active_path_of(),
                        md,
                        a,
                    )
                    &&& match old(self).request_of().resolution_choice {
                        Some(c) => resolved_step(
                            *final(self),
                            action,
                            freshness_of(old(self).request_of().selected_vault_save.metadata, md),
                            c,
                        ),
                        None => action is LoadConflictPolicy && final(self).phase_of()
                            == SwapPhase::AwaitPolicy,
                    }
                },
            }),
            old(self).phase_of() == SwapPhase::AwaitPolicy ==> (event matches SwapEvent::ConflictPolicyLoaded(res)
                ==> match res {
                Err(t) => final(self).outcome_of() == Some(
                    Err::<SwapTransactionResult, SwapError>(SwapError::Io(t)),
                ),
                Ok(p) => old(self).active_record_of() matches Some(a) && resolved_step(
                    *final(self),
                    action,
                    freshness_of(old(self).request_of().selected_vault_save.metadata, a.metadata),
                    policy_choice(
                        p,
                        freshness_of(old(self).request_of().selected_vault_save.metadata, a.metadata),
                    ),
                ),
            }),
            old(self).phase_of() == SwapPhase::AwaitStaging ==> (event matches SwapEvent::Staged(res)
                ==> match res {
                Err(t) => final(self).outcome_of() == Some(
                    Err::<SwapTransactionResult, SwapError>(SwapError::Io(t)),
                ),
                Ok(_) => (final(self).staged_of() matches Some(p) && p@ == old(self).staging_target_of()) && action is CopyIntoPlace,
            }),
            old(self).phase_of() == SwapPhase::AwaitCopy ==> (event matches SwapEvent::Copied(res)
                ==> match res {
                Err(_) => action is Rollback && (final(self).pending_of() matches Some(
                    SwapError::CopyFailed { from, to },
                ) && from@ == old(self).request_of().selected_vault_save.absolute_path@ && to@ == old(
                    self,
                ).active_path_of()),
                Ok(_) => action matches SwapAction::ReadPlacedMetadata { path } && path@ == old(
                    self,
                ).active_path_of(),
            }),
            old(self).phase_of() == SwapPhase::AwaitPlacedMetadata ==> (event matches SwapEvent::PlacedMetadata(res)
                ==> match res {
                Err(t) => action is Rollback && final(self).pending_of() == Some(SwapError::Io(t)),
                Ok(md) => match integrity_verdict(
                    old(self).request_of().selected_vault_save.metadata,
                    md,
                ) {
                    Ok(_) => final(self).verified_of() && (action matches SwapAction::ReadFinalMetadata {
                        path,
                    } && path@ == old(self).active_path_of()),
                    Err(e) => action is Rollback && final(self).pending_of() == Some(
                        SwapError::VerificationFailed(e),
                    ),
                },
            }),
            old(self).phase_of() == SwapPhase::AwaitRollback ==> (event matches SwapEvent::RolledBack(res)
                ==> match res {
                Err(t) => final(self).outcome_of() == Some(
                    Err::<SwapTransactionResult, SwapError>(SwapError::Io(t)),
                ) && !final(self).recovered_of(),
                Ok(_) => final(self).recovered_of() && (old(self).pending_of() matches Some(e)
                    && final(self).outcome_of() == Some(Err::<SwapTransactionResult, SwapError>(e))),
            }),
            old(self).phase_of() == SwapPhase::AwaitFinalMetadata ==> (event matches SwapEvent::FinalMetadata(res)
                ==> match res {
                Err(t) => final(self).outcome_of() == Some(
                    Err::<SwapTransactionResult, SwapError>(SwapError::Io(t)),
                ),
                Ok(md) => final(self).outcome_of() matches Some(Ok(r)) && r.active_metadata == md
                    && r.staged_active_backup_path == old(self).staged_of()
                    && r.active_destination_path@ == old(self).active_path_of(),
            }),
    {
        match (self.phase, event) {
            (SwapPhase::Finished, _) => SwapAction::Finish,
            (SwapPhase::AwaitPreflight, SwapEvent::Preflight(report)) => {
                match ensure_preflight_ready(report) {
                    Err(e) => self.finish(Err(e)),
                    Ok(_) => {
                        self.phase = SwapPhase::AwaitActiveProbe;
                        SwapAction::ProbeActive { path: self.active_path.clone() }
                    },
                }
            },
            (SwapPhase::AwaitActiveProbe, SwapEvent::ActiveProbed { exists }) => {
                if exists {
                    self.phase = SwapPhase::AwaitActiveMetadata;
                    SwapAction::ReadActiveMetadata { path: self.active_path.clone() }
                } else {
                    self.phase = SwapPhase::AwaitCopy;
                    self.copy_action()
                }
            },
            (SwapPhase::AwaitActiveMetadata, SwapEvent::ActiveMetadata(res)) => {
                match res {
                    Err(t) => self.finish(Err(SwapError::Io(t))),
                    Ok(md) => {
                        if !self.request.confirmed_destructive_action {
                            return self.finish(Err(SwapError::ConfirmationRequired));
                        }
                        let record = read_active_save_record(
                            &self.request.game,
                            self.active_path.as_str(),
                            md,
                        );
                        let comparison = compare_for_swap(&self.request.selected_vault_save, &record);
                        self.active_record = Some(record);
                        self.comparison = Some(comparison);
                        self.phase = SwapPhase::AwaitPolicy;
                        match self.request.resolution_choice {
                            Some(choice) => self.decide(choice),
                            None => SwapAction::LoadConflictPolicy,
                        }
                    },
                }
            },
            (SwapPhase::AwaitPolicy, SwapEvent::ConflictPolicyLoaded(res)) => {
                match res {
                    Err(t) => self.finish(Err(SwapError::Io(t))),
                    Ok(policy) => {
                        let freshness = match &self.comparison {
                            Some(c) => c.freshness,
                            None => SaveFreshness::Unknown,
                        };
                        let choice = choice_from_policy(policy, freshness);
                        self.decide(choice)
                    },
                }
            },
            (SwapPhase::AwaitVaultRoot, SwapEvent::VaultRoot(res)) => {
                match res {
                    Err(t) => self.finish(Err(SwapError::Io(t))),
                    Ok(root) => {
                        self.vault_dir = game_vault_dir(root.as_str(), self.request.game.name.as_str());
                        self.phase = SwapPhase::AwaitVaultDir;
                        SwapAction::EnsureVaultDir { path: self.vault_dir.clone() }
                    },
                }
            },
            (SwapPhase::AwaitVaultDir, SwapEvent::VaultDirReady(res)) => {
                match res {
                    Err(t) => self.finish(Err(SwapError::Io(t))),
                    Ok(()) => {
                        let name = match file_name(self.active_path.as_str()) {
                            Some(f) => f,
                            None => owned("save.dat"),
                        };
                        proof {
                            reveal_strlit("save.dat");
                        }
                        assert(name@ == staged_name(self.active_path@));
                        let (search, first) = FreeNameSearch::start(self.vault_dir.as_str(), name.as_str());
                        self.search = Some(search);
                        self.phase = SwapPhase::AwaitStagingName;
                        SwapAction::ProbeStagingPath { path: first }
                    },
                }
            },
            (SwapPhase::AwaitStagingName, SwapEvent::StagingPathExists(exists)) => {
                let mut current: Option<FreeNameSearch> = None;
                std::mem::swap(&mut current, &mut self.search);
                match current {
                    Some(mut search) => match search.on_probe(exists) {
                        SearchStep::Probe(p) => {
                            self.search = Some(search);
                            SwapAction::ProbeStagingPath { path: p }
                        },
                        SearchStep::Chosen(c) => {
                            self.staging_target = c;
                            self.phase = SwapPhase::AwaitStaging;
                            SwapAction::StageActive {
                                active_path: self.active_path.clone(),
                                staged_path: self.staging_target.clone(),
                            }
                        },
                    },
                    None => self.finish(Err(SwapError::UnexpectedEvent)),
                }
            },
            (SwapPhase::AwaitStaging, SwapEvent::Staged(res)) => {
                match res {
                    Err(t) => self.finish(Err(SwapError::Io(t))),
                    Ok(()) => {
                        self.staged = Some(self.staging_target.clone());
                        self.phase = SwapPhase::AwaitCopy;
                        self.copy_action()
                    },
                }
            },
            (SwapPhase::AwaitCopy, SwapEvent::Copied(res)) => {
                match res {
                    Err(_) => {
                        let error = SwapError::CopyFailed {
                            from: self.request.selected_vault_save.absolute_path.clone(),
                            to: self.active_path.clone(),
                        };
                        self.rollback(error)
                    },
                    Ok(()) => {
                        self.phase = SwapPhase::AwaitPlacedMetadata;
                        SwapAction::ReadPlacedMetadata { path: self.active_path.clone() }
                    },
                }
            },
            (SwapPhase::AwaitPlacedMetadata, SwapEvent::PlacedMetadata(res)) => {
                match res {
                    Err(t) => self.rollback(SwapError::Io(t)),
                    Ok(md) => {
                        match verify_metadata_pair(&self.request.selected_vault_save.metadata, &md) {
                            Err(e) => self.rollback(SwapError::VerificationFailed(e)),
                            Ok(()) => {
                                self.verified = true;
                                self.phase = SwapPhase::AwaitFinalMetadata;
                                SwapAction::ReadFinalMetadata { path: self.active_path.clone() }
                            },
                        }
                    },
                }
            },
            (SwapPhase::AwaitRollback, SwapEvent::RolledBack(res)) => {
                match res {
                    Err(t) => self.finish(Err(SwapError::Io(t))),
                    Ok(()) => {
                        let error = match &self.pending {
                            Some(e) => e.clone_error(),
                            None => SwapError::UnexpectedEvent,
                        };
                        let a = self.finish(Err(error));
                        self.recovered_after_failure = true;
                        a
                    },
                }
            },
            (SwapPhase::AwaitFinalMetadata, SwapEvent::FinalMetadata(res)) => {
                match res {
                    Err(t) => self.finish(Err(SwapError::Io(t))),
                    Ok(md) => {
                        let result = SwapTransactionResult {
                            staged_active_backup_path: crate::text::clone_opt(&self.staged),
                            active_destination_path: self.active_path.clone(),
                            active_metadata: md,
                        };
                        self.finish(Ok(result))
                    },
                }
            },
            (_, _) => self.finish(Err(SwapError::UnexpectedEvent)),
        }
    }
}

impl SwapError {
    /// A copy of the error.
    pub fn clone_error(&self) -> (r: SwapError)
        ensures
            r == *self,
    {
        match self {
            SwapError::PreflightFailed(r) => SwapError::PreflightFailed(*r),
            SwapError::ConfirmationRequired => SwapError::ConfirmationRequired,
            SwapError::CancelledKeepDestination => SwapError::CancelledKeepDestination,
            SwapError::CancelledUnknownFreshness => SwapError::CancelledUnknownFreshness,
            SwapError::CancelledByUser => SwapError::CancelledByUser,
            SwapError::CopyFailed { from, to } => SwapError::CopyFailed {
                from: from.clone(),
                to: to.clone(),
            },
            SwapError::VerificationFailed(e) => SwapError::VerificationFailed(
                match e {
                    IntegrityError::SizeMismatch { source, destination } => IntegrityError::SizeMismatch {
                        source: *source,
                        destination: *destination,
                    },
                    IntegrityError::HashMismatch => IntegrityError::HashMismatch,
                    IntegrityError::MissingHash => IntegrityError::MissingHash,
                },
            ),
            SwapError::Io(t) => SwapError::Io(t.clone()),
            SwapError::UnexpectedEvent => SwapError::UnexpectedEvent,
        }
    }
}

} // verus!
