//! What a change seen in a watched local folder becomes: one sync event
//! per affected file, tagged with the remote folder of its sync pair.
use vstd::prelude::*;

verus! {

/// A change to a local file that the sync engine has to act on.
#[derive(Debug, Clone)]
pub enum SyncEvent {
    LocalChanged { local_path: String, pair_remote: String },
    LocalDeleted { local_path: String, pair_remote: String },
}

/// The kind of a file-system notification, as far as syncing cares.
#[derive(Debug, Clone, Copy, PartialEq, Eq, Structural)]
pub enum ChangeKind {
    /// The file was removed.
    Remove,
    /// Anything else: created, modified, renamed, accessed.
    Other,
}

/// An event as (deleted?, local path, remote folder).
pub open spec fn event_view(e: SyncEvent) -> (bool, Seq<char>, Seq<char>) {
    match e {
        SyncEvent::LocalChanged { local_path, pair_remote } => (false, local_path@, pair_remote@),
        SyncEvent::LocalDeleted { local_path, pair_remote } => (true, local_path@, pair_remote@),
    }
}

/// The event for one file touched by a notification of `kind`.
pub fn event_for(kind: ChangeKind, local_path: String, pair_remote: String) -> (e: SyncEvent)
    ensures
        event_view(e) == (kind == ChangeKind::Remove, local_path@, pair_remote@),
{
    match kind {
        ChangeKind::Remove => SyncEvent::LocalDeleted { local_path, pair_remote },
        ChangeKind::Other => SyncEvent::LocalChanged { local_path, pair_remote },
    }
}

/// The events for one notification of `kind` whose paths that are
/// regular files are `files`, in the order of the notification.
pub fn events_for(kind: ChangeKind, files: &Vec<String>, pair_remote: &String) -> (es: Vec<SyncEvent>)
    ensures
        es@.len() == files@.len(),
        forall|i: int|
            0 <= i < files@.len() ==> #[trigger] event_view(es@[i]) == (
                kind == ChangeKind::Remove,
                files@[i]@,
                pair_remote@,
            ),
{
    let mut es: Vec<SyncEvent> = Vec::new();
    let mut i: usize = 0;
    while i < files.len()
        invariant
            i <= files.len(),
            es@.len() == i,
            forall|j: int|
                0 <= j < i ==> #[trigger] event_view(es@[j]) == (
                    kind == ChangeKind::Remove,
                    files@[j]@,
                    pair_remote@,
                ),
        decreases files.len() - i,
    {
        let e = event_for(kind, files[i].clone(), pair_remote.clone());
        es.push(e);
        i = i + 1;
    }
    es
}

} // verus!
