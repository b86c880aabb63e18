//! The sync database's records: the state of each local file against its
//! remote copy, and how that state is written as text in a row.
use vstd::prelude::*;

verus! {

/// Where a local file stands against its remote copy.
#[derive(Debug, Clone, Copy, PartialEq, Eq, Structural)]
pub enum SyncStatus {
    Synced,
    PendingUpload,
    PendingDownload,
    Conflict,
}

/// The text a status is stored as.
pub open spec fn status_text(s: SyncStatus) -> Seq<char> {
    match s {
        SyncStatus::Synced => "synced"@,
        SyncStatus::PendingUpload => "pending_upload"@,
        SyncStatus::PendingDownload => "pending_download"@,
        SyncStatus::Conflict => "conflict"@,
    }
}

/// The status a stored text stands for; any unknown text reads as synced.
pub open spec fn status_of_text(t: Seq<char>) -> SyncStatus {
    if t == "pending_upload"@ {
        SyncStatus::PendingUpload
    } else if t == "pending_download"@ {
        SyncStatus::PendingDownload
    } else if t == "conflict"@ {
        SyncStatus::Conflict
    } else {
        SyncStatus::Synced
    }
}

impl SyncStatus {
    /// The text this status is stored as.
    pub fn as_str(&self) -> (t: &'static str)
        ensures
            t@ == status_text(*self),
    {
        match self {
            SyncStatus::Synced => "synced",
            SyncStatus::PendingUpload => "pending_upload",
            SyncStatus::PendingDownload => "pending_download",
            SyncStatus::Conflict => "conflict",
        }
    }

    /// The status a stored text stands for (synced for any unknown text).
    pub fn from_str(s: &str) -> (r: SyncStatus)
        ensures
            r == status_of_text(s@),
    {
        let v = crate::text::chars_of(s);
        if crate::text::same_chars(&v, &crate::text::chars_of("pending_upload")) {
            SyncStatus::PendingUpload
        } else if crate::text::same_chars(&v, &crate::text::chars_of("pending_download")) {
            SyncStatus::PendingDownload
        } else if crate::text::same_chars(&v, &crate::text::chars_of("conflict")) {
            SyncStatus::Conflict
        } else {
            SyncStatus::Synced
        }
    }
}

/// Reading back the stored text of a status gives the same status.
pub proof fn law_status_round_trip(s: SyncStatus)
    ensures
        status_of_text(status_text(s)) == s,
{
    reveal_strlit("synced");
    reveal_strlit("pending_upload");
    reveal_strlit("pending_download");
    reveal_strlit("conflict");
    match s {
        SyncStatus::Synced => {
            assert("synced"@ != "pending_upload"@ && "synced"@ != "pending_download"@
                && "synced"@ != "conflict"@) by {
                assert("synced"@.len() != "pending_upload"@.len());
                assert("synced"@.len() != "pending_download"@.len());
                assert("synced"@[0] != "conflict"@[0]);
            }
        },
        SyncStatus::PendingUpload => {},
        SyncStatus::PendingDownload => {
            assert("pending_download"@ != "pending_upload"@) by {
                assert("pending_download"@.len() != "pending_upload"@.len());
            }
        },
        SyncStatus::Conflict => {
            assert("conflict"@ != "pending_upload"@ && "conflict"@ != "pending_download"@) by {
                assert("conflict"@.len() != "pending_upload"@.len());
                assert("conflict"@.len() != "pending_download"@.len());
            }
        },
    }
}

/// Different statuses are stored as different texts.
pub proof fn law_status_text_distinct(a: SyncStatus, b: SyncStatus)
    ensures
        status_text(a) == status_text(b) ==> a == b,
{
    law_status_round_trip(a);
    law_status_round_trip(b);
}

/// One file's record in the sync database.
#[derive(Debug, Clone)]
pub struct SyncEntry {
    pub local_path: String,
    pub remote_id: String,
    pub status: SyncStatus,
    pub modified_at: i64,
}

/// The record for one row: the columns in order, the status as stored.
pub fn entry_from_row(local_path: String, remote_id: String, status: &str, modified_at: i64) -> (e:
    SyncEntry)
    ensures
        e.local_path@ == local_path@,
        e.remote_id@ == remote_id@,
        e.status == status_of_text(status@),
        e.modified_at == modified_at,
{
    SyncEntry { local_path, remote_id, status: SyncStatus::from_str(status), modified_at }
}

} // verus!
