//! Save conflict comparison and user resolution choices for swap/restore.

use vstd::prelude::*;

use crate::domain::save::SaveMetadata;
use crate::time::{time_lt, UtcTime};

verus! {

#[derive(Clone, Copy, Debug, PartialEq, Eq, Structural)]
pub enum SaveFreshness {
    SourceNewer,
    DestinationNewer,
    Equal,
    Unknown,
}

#[derive(Clone, Copy, Debug, PartialEq, Eq, Structural)]
pub enum ResolutionChoice {
    KeepSource,
    KeepDestination,
    KeepBothRename,
    CancelOperation,
}

#[derive(Clone, Debug)]
pub struct ConflictComparison {
    pub source_path: String,
    pub destination_path: String,
    pub source_metadata: SaveMetadata,
    pub destination_metadata: SaveMetadata,
    pub freshness: SaveFreshness,
    pub reason: String,
}

/// Both hashes are present and equal.
pub open spec fn same_hash(a: SaveMetadata, b: SaveMetadata) -> bool {
    match (a.sha256, b.sha256) {
        (Some(x), Some(y)) => x@ == y@,
        _ => false,
    }
}

/// Which of two saves is newer: equal hashes mean equivalent; otherwise the
/// modification times decide; without both times nothing can be said.
pub open spec fn freshness_of(source: SaveMetadata, destination: SaveMetadata) -> SaveFreshness {
    match (source.modified_at, destination.modified_at) {
        (Some(a), Some(b)) => {
            if same_hash(source, destination) {
                SaveFreshness::Equal
            } else if time_lt(b, a) {
                SaveFreshness::SourceNewer
            } else if time_lt(a, b) {
                SaveFreshness::DestinationNewer
            } else {
                SaveFreshness::Equal
            }
        },
        _ => SaveFreshness::Unknown,
    }
}

/// Swapping source and destination mirrors the verdict.
pub open spec fn mirrored(f: SaveFreshness) -> SaveFreshness {
    match f {
        SaveFreshness::SourceNewer => SaveFreshness::DestinationNewer,
        SaveFreshness::DestinationNewer => SaveFreshness::SourceNewer,
        other => other,
    }
}

/// Comparing in the other direction gives the mirrored verdict.
pub proof fn law_freshness_mirrors(a: SaveMetadata, b: SaveMetadata)
    ensures
        freshness_of(b, a) == mirrored(freshness_of(a, b)),
{
}

/// Comparing a save with itself never reports one side as newer.
pub proof fn law_freshness_reflexive(a: SaveMetadata)
    ensures
        freshness_of(a, a) == SaveFreshness::Equal || freshness_of(a, a) == SaveFreshness::Unknown,
{
}

fn hashes_equal(a: &SaveMetadata, b: &SaveMetadata) -> (r: bool)
    ensures
        r == same_hash(*a, *b),
{
    match (&a.sha256, &b.sha256) {
        (Some(x), Some(y)) => crate::text::str_eq(x.as_str(), y.as_str()),
        _ => false,
    }
}

/// The freshness verdict for a pair of saves.
pub fn compute_freshness(source: &SaveMetadata, destination: &SaveMetadata) -> (f: SaveFreshness)
    ensures
        f == freshness_of(*source, *destination),
{
    match (&source.modified_at, &destination.modified_at) {
        (Some(a), Some(b)) => {
            if hashes_equal(source, destination) {
                SaveFreshness::Equal
            } else if crate::time::is_before(b, a) {
                SaveFreshness::SourceNewer
            } else if crate::time::is_before(a, b) {
                SaveFreshness::DestinationNewer
            } else {
                SaveFreshness::Equal
            }
        },
        _ => SaveFreshness::Unknown,
    }
}

} // verus!
