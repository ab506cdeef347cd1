use vstd::prelude::*;

use crate::time::UtcTime;

verus! {

#[derive(Clone, Copy, Debug, PartialEq, Eq, Structural)]
pub enum SaveOrigin {
    ActiveDirectory,
    Vault,
}

/// What is known of a save file's content and times.
#[derive(Clone, Debug)]
pub struct SaveMetadata {
    pub modified_at: Option<UtcTime>,
    pub created_at: Option<UtcTime>,
    pub byte_size: u64,
    pub sha256: Option<String>,
}

/// One save file, in the active directory or in the vault.
#[derive(Clone, Debug)]
pub struct SaveRecord {
    pub id: String,
    pub game_id: String,
    pub file_name: String,
    pub absolute_path: String,
    pub origin: SaveOrigin,
    pub label: Option<String>,
    pub note: Option<String>,
    /// User-chosen tag colour from annotations; when `None`, the UI derives a default from `id`.
    pub label_color: Option<String>,
    pub metadata: SaveMetadata,
    pub archived_at: Option<UtcTime>,
}

impl SaveMetadata {
    /// A field-by-field copy.
    pub fn duplicate(&self) -> (r: SaveMetadata)
        ensures
            r == *self,
    {
        SaveMetadata {
            modified_at: self.modified_at,
            created_at: self.created_at,
            byte_size: self.byte_size,
            sha256: crate::text::clone_opt(&self.sha256),
        }
    }
}

impl SaveRecord {
    /// A field-by-field copy.
    pub fn duplicate(&self) -> (r: SaveRecord)
        ensures
            r == *self,
    {
        SaveRecord {
            id: self.id.clone(),
            game_id: self.game_id.clone(),
            file_name: self.file_name.clone(),
            absolute_path: self.absolute_path.clone(),
            origin: self.origin,
            label: crate::text::clone_opt(&self.label),
            note: crate::text::clone_opt(&self.note),
            label_color: crate::text::clone_opt(&self.label_color),
            metadata: self.metadata.duplicate(),
            archived_at: self.archived_at,
        }
    }
}

} // verus!
