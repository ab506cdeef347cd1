//! The last swap, kept so that it can be rolled back.

use vstd::prelude::*;

use crate::api::dto::{stamp_text, LastSwapDto};
use crate::text::owned;
use crate::time::{to_rfc3339, UtcTime};

verus! {

/// Where the last swap put the restored save, where the replaced active save
/// was staged (if there was one), and when.
#[derive(Clone, Debug)]
pub struct LastSwapSession {
    pub game_id: String,
    pub snapshot_id: String,
    pub active_destination_path: String,
    pub staged_active_backup_path: Option<String>,
    pub restored_at: UtcTime,
}

/// The last swap as the shell shows it: the previous active save is the
/// staged copy when there is one, else the destination itself.
pub fn session_to_dto(session: &LastSwapSession) -> (d: LastSwapDto)
    ensures
        d.game_id == session.game_id,
        d.snapshot_id == session.snapshot_id,
        d.previous_active_path@ == match session.staged_active_backup_path {
            Some(p) => p@,
            None => session.active_destination_path@,
        },
        d.restored_at@ == stamp_text(session.restored_at),
{
    let previous_active_path = match &session.staged_active_backup_path {
        Some(p) => owned(p.as_str()),
        None => owned(session.active_destination_path.as_str()),
    };
    LastSwapDto {
        game_id: session.game_id.clone(),
        snapshot_id: session.snapshot_id.clone(),
        previous_active_path,
        restored_at: to_rfc3339(&session.restored_at),
    }
}

/// Where the last swap put the restored save.
pub fn active_destination(session: &LastSwapSession) -> (p: &str)
    ensures
        p@ == session.active_destination_path@,
{
    session.active_destination_path.as_str()
}

/// Where the last swap staged the replaced active save, if anywhere.
pub fn staged_backup(session: &LastSwapSession) -> (p: Option<&str>)
    ensures
        match session.staged_active_backup_path {
            Some(s) => p matches Some(x) && x@ == s@,
            None => p is None,
        },
{
    match &session.staged_active_backup_path {
        Some(s) => Some(s.as_str()),
        None => None,
    }
}

} // verus!
