//! What the audit log records about high-risk operations.

use vstd::prelude::*;

use crate::time::UtcTime;

verus! {

/// The operation an audit event is about.
#[derive(Clone, Copy, Debug, PartialEq, Eq, Structural)]
pub enum AuditAction {
    BackupSave,
    RestoreSave,
    SwapSave,
    DeleteSave,
    ScanPaths,
    ConfigChanged,
    AppStartup,
}

/// How the operation ended.
#[derive(Clone, Copy, Debug, PartialEq, Eq, Structural)]
pub enum AuditOutcome {
    Success,
    Failure,
}

/// One line of the audit log: when, which operation, how it ended, and the
/// game and paths it concerned when there are any.
#[derive(Clone, Debug)]
pub struct AuditEvent {
    pub timestamp: UtcTime,
    pub action: AuditAction,
    pub outcome: AuditOutcome,
    pub message: String,
    pub game_id: Option<String>,
    pub source_path: Option<String>,
    pub destination_path: Option<String>,
}

} // verus!
