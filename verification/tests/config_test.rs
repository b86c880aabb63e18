use pdrive_core::config::{config_path, config_path_from, Config, SyncDirection, SyncPair};
use pdrive_core::dirs_env::{
    dark_mode_path, dark_mode_path_from, download_dir_from, expected_cache_dir, join,
};

#[test]
fn test_empty_config_has_no_sync_pairs() {
    let config = Config::default();
    assert!(config.sync_pairs.is_empty());
}

#[test]
fn test_config_path_contains_pdrive() {
    let path = pdrive_core::config::config_path();
    assert!(String::from_utf8_lossy(&path).contains("pdrive"));
}

#[test]
fn config_path_fallbacks() {
    assert_eq!(
        config_path_from(Some(b"/home/alice/.config".to_vec()), None),
        b"/home/alice/.config/pdrive/config.toml".to_vec()
    );
    assert_eq!(
        config_path_from(None, Some(b"/home/alice".to_vec())),
        b"/home/alice/.config/pdrive/config.toml".to_vec()
    );
    assert_eq!(config_path_from(None, None), b"/tmp/pdrive/config.toml".to_vec());
    assert_eq!(config_path_from(Some(b"/cfg/".to_vec()), None), b"/cfg/pdrive/config.toml".to_vec());
}

#[test]
fn directories_that_are_not_text_are_kept_byte_for_byte() {
    assert_eq!(
        config_path_from(Some(b"/home/\xffx/.config".to_vec()), None),
        b"/home/\xffx/.config/pdrive/config.toml".to_vec()
    );
    assert_eq!(download_dir_from(Some(b"/c/\xfe".to_vec())), b"/c/\xfe/pdrive".to_vec());
    assert_eq!(join(b"/d/\xe9", "\u{e9}t\u{e9}"), b"/d/\xe9/\xc3\xa9t\xc3\xa9".to_vec());
}

#[test]
fn path_joining() {
    assert_eq!(join(b"/a", "b"), b"/a/b".to_vec());
    assert_eq!(join(b"/a/", "b"), b"/a/b".to_vec());
    assert_eq!(join(b"", "b"), b"b".to_vec());
}

#[test]
fn client_files_end_in_pdrive() {
    assert!(dark_mode_path().ends_with(b"pdrive/dark_mode"));
    assert!(expected_cache_dir().ends_with(b"pdrive"));
}

#[test]
fn sync_pair_fields() {
    let config = Config {
        sync_pairs: vec![SyncPair {
            local: "/home/user/Documents".into(),
            remote: "/My Files/Documents".into(),
            direction: SyncDirection::Bidirectional,
        }],
    };
    assert_eq!(config.sync_pairs[0].local, "/home/user/Documents");
    assert_eq!(config.sync_pairs[0].direction, SyncDirection::Bidirectional);
}

#[test]
fn download_dir_follows_the_cache_directory() {
    assert_eq!(download_dir_from(Some(b"/home/alice/.cache".to_vec())), b"/home/alice/.cache/pdrive".to_vec());
    assert_eq!(download_dir_from(Some(b"/var/cache/".to_vec())), b"/var/cache/pdrive".to_vec());
    assert_eq!(download_dir_from(None), b"/tmp/pdrive".to_vec());
}

#[test]
fn dark_mode_file_follows_the_config_directory() {
    assert_eq!(
        dark_mode_path_from(Some(b"/home/alice/.config".to_vec())),
        b"/home/alice/.config/pdrive/dark_mode".to_vec()
    );
    assert_eq!(dark_mode_path_from(None), b"/tmp/pdrive/dark_mode".to_vec());
}
