use pdrive_core::db::{entry_from_row, SyncStatus};
use pdrive_core::sync::{event_for, events_for, ChangeKind, SyncEvent};

#[test]
fn status_texts_round_trip() {
    for s in [SyncStatus::Synced, SyncStatus::PendingUpload, SyncStatus::PendingDownload, SyncStatus::Conflict] {
        assert_eq!(SyncStatus::from_str(s.as_str()), s);
    }
    assert_eq!(SyncStatus::PendingUpload.as_str(), "pending_upload");
    assert_eq!(SyncStatus::from_str("garbage"), SyncStatus::Synced);
}

#[test]
fn rows_to_entries() {
    let e = entry_from_row("/home/user/doc.txt".into(), "abc123".into(), "pending_download", 1700000000);
    assert_eq!(e.local_path, "/home/user/doc.txt");
    assert_eq!(e.remote_id, "abc123");
    assert_eq!(e.status, SyncStatus::PendingDownload);
    assert_eq!(e.modified_at, 1700000000);
}

#[test]
fn watch_events() {
    match event_for(ChangeKind::Other, "/w/new_file.txt".into(), "/My Files/Test".into()) {
        SyncEvent::LocalChanged { local_path, pair_remote } => {
            assert!(local_path.ends_with("new_file.txt"));
            assert_eq!(pair_remote, "/My Files/Test");
        }
        other => panic!("expected LocalChanged, got {:?}", other),
    }
    let es = events_for(ChangeKind::Remove, &vec!["/w/a".to_string(), "/w/b".to_string()], &"/R".to_string());
    assert_eq!(es.len(), 2);
    match &es[1] {
        SyncEvent::LocalDeleted { local_path, .. } => assert_eq!(local_path, "/w/b"),
        other => panic!("expected LocalDeleted, got {:?}", other),
    }
    assert!(events_for(ChangeKind::Other, &vec![], &"/R".to_string()).is_empty());
}
