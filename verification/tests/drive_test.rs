use pdrive_core::drive::{collect_listing, DriveClient, DriveEntry, ListedChild, NodeInfo, NodeKind};
use pdrive_core::sdk::{DriveNode, SdkError};
use std::io::Write;
use tempfile::tempdir;

#[test]
fn test_login_returns_client() {
    // Stub always succeeds
    let result = DriveClient::login("user@proton.me", "password");
    assert!(result.is_ok());
}

#[test]
fn test_list_returns_entries() {
    let client = DriveClient::login("user@proton.me", "pass").unwrap();
    let entries = client.list("/").unwrap();
    assert!(!entries.is_empty());
    // First entry should be a directory (as per stub)
    assert!(entries[0].is_dir);
}

#[test]
fn test_upload_succeeds() {
    let dir = tempdir().unwrap();
    let mut file = tempfile::Builder::new()
        .prefix("test")
        .suffix(".txt")
        .rand_bytes(0)
        .tempfile_in(dir.path())
        .unwrap();
    file.write_all(b"hello").unwrap();
    assert_eq!(file.path(), dir.path().join("test.txt"));

    let client = DriveClient::login("user@proton.me", "pass").unwrap();
    let result = client.upload(file.path().to_str().unwrap(), "/My Files/test.txt");
    assert!(result.is_ok());
}

#[test]
fn test_session_token() {
    let client = DriveClient::login("user@proton.me", "pass").unwrap();
    // Stub returns Some(token)
    assert!(client.session_token().is_some());
}

#[test]
fn listing_carries_the_example_folder() {
    let client = DriveClient::login("user@proton.me", "pass").unwrap();
    let entries = client.list("/anything").unwrap();
    assert_eq!(entries.len(), 1);
    assert_eq!(entries[0].id, "stub-id-1");
    assert_eq!(entries[0].name, "Example Folder");
    assert_eq!(entries[0].size, None);
    assert_eq!(entries[0].modified, Some(1700000000));
    assert_eq!(client.session_token(), Some("stub-session-token".to_string()));
    assert!(client.download("stub-id-1", "/tmp/x").is_ok());
}

#[test]
fn entry_from_node_keeps_fields() {
    let node = DriveNode {
        id: "n1".into(),
        name: "photo.jpg".into(),
        is_directory: false,
        size: Some(42),
        modified_at: Some(7),
    };
    let e = DriveEntry::from(node);
    assert_eq!(e.id, "n1");
    assert_eq!(e.name, "photo.jpg");
    assert!(!e.is_dir);
    assert_eq!(e.size, Some(42));
    assert_eq!(e.modified, Some(7));
}

#[test]
fn sdk_error_message() {
    let e = SdkError("boom".into());
    assert_eq!(e.message(), "Proton Drive SDK error: boom");
}

fn node(kind: NodeKind, uid: &str, name: &str, size: i64) -> NodeInfo {
    NodeInfo { kind, uid: uid.to_string(), name: name.to_string(), total_size_on_cloud_storage: size }
}

#[test]
fn listing_keeps_order_and_skips_degraded_photos_and_uidless_nodes() {
    let items = vec![
        ListedChild::Node(node(NodeKind::File, "f1", "b.txt", 10), Some(1u32)),
        ListedChild::Degraded,
        ListedChild::Node(node(NodeKind::Photo, "p1", "x.jpg", 5), Some(2u32)),
        ListedChild::Node(node(NodeKind::Folder, "d1", "Docs", 0), Some(3u32)),
        ListedChild::Node(node(NodeKind::File, "f2", "c.txt", 7), None),
        ListedChild::Node(node(NodeKind::Album, "a1", "Trip", 0), Some(4u32)),
        ListedChild::Node(node(NodeKind::File, "f3", "neg.bin", -1), Some(5u32)),
    ];
    let listed = collect_listing(items).unwrap();
    let got: Vec<(String, bool, Option<u64>, u32)> =
        listed.into_iter().map(|(e, u)| (e.name, e.is_dir, e.size, u)).collect();
    assert_eq!(
        got,
        vec![
            ("b.txt".to_string(), false, Some(10), 1),
            ("Docs".to_string(), true, None, 3),
            ("Trip".to_string(), true, None, 4),
            ("neg.bin".to_string(), false, None, 5),
        ]
    );
}

#[test]
fn listing_with_a_failure_gives_nothing() {
    let items = vec![
        ListedChild::Node(node(NodeKind::File, "f1", "b.txt", 10), Some(1u32)),
        ListedChild::Failed,
    ];
    assert!(collect_listing(items).is_none());
    assert_eq!(collect_listing::<u32>(vec![]).map(|v| v.len()), Some(0));
}
