use pdrive_core::daemon::{
    browse_source, browse_step, download_destination, download_name, human_size,
    listing_is_fresh, reload_text, status_text, BrowseAction, BrowseEvent, BrowseSource,
    INTERFACE_NAME, OBJECT_PATH,
};
use pdrive_core::daemon::{entries_json, session_step, SessionAction, SessionEvent};

#[test]
fn main_test_interface_name_constant() {
    assert_eq!(INTERFACE_NAME, "org.protonmail.PDrive");
}

#[test]
fn main_test_object_path_constant() {
    assert_eq!(OBJECT_PATH, "/org/protonmail/PDrive");
}

#[test]
fn service_size_below_one_kib_is_in_bytes() {
    assert_eq!(human_size(0), "0 B");
    assert_eq!(human_size(1), "1 B");
    assert_eq!(human_size(1023), "1023 B");
}

#[test]
fn service_size_units() {
    assert_eq!(human_size(1024), "1.0 KB");
    assert_eq!(human_size(1536), "1.5 KB");
    assert_eq!(human_size(1024 * 1024), "1.0 MB");
    assert_eq!(human_size(5 * 1024 * 1024 * 1024), "5.0 GB");
    assert_eq!(human_size(u64::MAX), "17179869184.0 GB");
}

fn float_service_size(bytes: u64) -> String {
    const KB: u64 = 1024;
    const MB: u64 = KB * 1024;
    const GB: u64 = MB * 1024;
    if bytes >= GB {
        format!("{:.1} GB", bytes as f64 / GB as f64)
    } else if bytes >= MB {
        format!("{:.1} MB", bytes as f64 / MB as f64)
    } else if bytes >= KB {
        format!("{:.1} KB", bytes as f64 / KB as f64)
    } else {
        format!("{} B", bytes)
    }
}

#[test]
fn service_size_matches_float_formatting() {
    let mut samples: Vec<u64> = Vec::new();
    for b in 0..5000u64 {
        samples.push(b);
    }
    // values whose tenths fall exactly half-way
    for k in [10u32, 20, 30] {
        let unit = 1u64 << k;
        for m in 1..200u64 {
            let x = m * unit + unit / 20;
            samples.push(x);
            samples.push(x + 1);
            samples.push(x.saturating_sub(1));
            // exact ties: 10 * b = (2q + 1) * unit / 2
            let tie = ((2 * m + 1) * unit / 2) / 10;
            samples.push(tie);
        }
    }
    // large values around and above 2^53
    let mut x: u64 = 1 << 50;
    while x < u64::MAX / 3 {
        for d in [0u64, 1, 2, 3, 511, 512, 513, 1023, 1024, 1025, 2047, 2048, 2049] {
            samples.push(x + d);
            samples.push(x - d);
        }
        x = x / 2 * 3;
    }
    samples.push(u64::MAX);
    samples.push(u64::MAX - 1024);
    samples.push((1u64 << 63) + (1u64 << 10));
    let mut seed: u64 = 0x9e3779b97f4a7c15;
    for _ in 0..20000 {
        seed ^= seed << 13;
        seed ^= seed >> 7;
        seed ^= seed << 17;
        samples.push(seed >> (seed % 60));
    }
    for b in samples {
        assert_eq!(human_size(b), float_service_size(b), "bytes = {}", b);
    }
}

#[test]
fn status_texts() {
    assert_eq!(status_text(true), "running");
    assert_eq!(status_text(false), "no-session");
    assert_eq!(reload_text(true), "ok");
    assert_eq!(reload_text(false), "no-session");
}

#[test]
fn listing_sources() {
    assert_eq!(browse_source("/"), BrowseSource::Root);
    assert_eq!(browse_source(""), BrowseSource::Root);
    assert_eq!(browse_source("/computers"), BrowseSource::Devices);
    assert_eq!(browse_source("/sync"), BrowseSource::Devices);
    assert_eq!(browse_source("/computers/laptop"), BrowseSource::RecordedFolder);
    assert_eq!(browse_source("/Documents"), BrowseSource::RecordedFolder);
}

#[test]
fn listing_cache_lifetime() {
    assert!(listing_is_fresh(0));
    assert!(listing_is_fresh(59));
    assert!(!listing_is_fresh(60));
    assert!(!listing_is_fresh(3600));
}

#[test]
fn download_names() {
    assert_eq!(download_name("/Documents/report.pdf"), Some("report.pdf".to_string()));
    assert_eq!(download_name("report.pdf"), Some("report.pdf".to_string()));
    assert_eq!(download_name("/Documents/"), None);
    assert_eq!(download_name("/Documents/.."), None);
    assert_eq!(download_name("/Documents/."), None);
}

#[test]
fn download_destinations() {
    assert_eq!(
        download_destination(b"/home/alice/.cache/pdrive", "a.txt"),
        Some(b"/home/alice/.cache/pdrive/a.txt".to_vec())
    );
    assert_eq!(download_destination(b"/tmp/pdrive/", "a.txt"), Some(b"/tmp/pdrive/a.txt".to_vec()));
    assert_eq!(download_destination(b"relative/pdrive", "a.txt"), None);
}

#[test]
fn browse_serves_a_fresh_cached_answer() {
    match browse_step(BrowseEvent::CacheLookup(Some(("[1]".to_string(), 59)))) {
        BrowseAction::Reply(r) => assert_eq!(r, "[1]"),
        _ => panic!("a fresh answer is served from the cache"),
    }
}

#[test]
fn browse_goes_to_the_drive_for_a_stale_or_missing_answer() {
    assert!(matches!(
        browse_step(BrowseEvent::CacheLookup(Some(("[1]".to_string(), 60)))),
        BrowseAction::LoadSession
    ));
    assert!(matches!(browse_step(BrowseEvent::CacheLookup(None)), BrowseAction::LoadSession));
}

#[test]
fn browse_without_session_or_listing_answers_empty_and_caches_nothing() {
    match browse_step(BrowseEvent::Session(false)) {
        BrowseAction::Reply(r) => assert_eq!(r, "[]"),
        _ => panic!("no session gives an empty answer"),
    }
    assert!(matches!(browse_step(BrowseEvent::Session(true)), BrowseAction::List));
    match browse_step(BrowseEvent::Listed(false)) {
        BrowseAction::Reply(r) => assert_eq!(r, "[]"),
        _ => panic!("a failed listing gives an empty answer"),
    }
    assert!(matches!(browse_step(BrowseEvent::Listed(true)), BrowseAction::CacheAndReply));
}

#[test]
fn session_steps_use_a_held_session_or_resume_the_stored_one() {
    assert_eq!(session_step(SessionEvent::Requested(true)), SessionAction::UseHeld);
    assert_eq!(session_step(SessionEvent::Requested(false)), SessionAction::ReadKeyring);
    assert_eq!(session_step(SessionEvent::KeyringRead(true, true)), SessionAction::Restore);
    assert_eq!(session_step(SessionEvent::Restored(true)), SessionAction::Adopt);
}

#[test]
fn session_steps_without_stored_secrets_end_with_no_session() {
    assert_eq!(session_step(SessionEvent::KeyringRead(true, false)), SessionAction::NoSession);
    assert_eq!(session_step(SessionEvent::KeyringRead(false, true)), SessionAction::NoSession);
    assert_eq!(session_step(SessionEvent::KeyringRead(false, false)), SessionAction::NoSession);
    assert_eq!(session_step(SessionEvent::Restored(false)), SessionAction::NoSession);
}

#[test]
fn a_new_sign_in_forgets_the_old_session_first() {
    assert_eq!(session_step(SessionEvent::Reloaded), SessionAction::Forget);
}

fn entry(name: &str, is_dir: bool, size: Option<u64>) -> pdrive_core::drive::DriveEntry {
    pdrive_core::drive::DriveEntry { id: String::new(), name: name.to_string(), is_dir, size, modified: None }
}

fn answer_by_value(entries: &[pdrive_core::drive::DriveEntry]) -> String {
    let values: Vec<serde_json::Value> = entries
        .iter()
        .map(|e| {
            let mut m = serde_json::Map::new();
            m.insert("name".to_string(), serde_json::Value::String(e.name.clone()));
            m.insert("is_dir".to_string(), serde_json::Value::Bool(e.is_dir));
            m.insert(
                "size".to_string(),
                serde_json::Value::String(e.size.map(human_size).unwrap_or_else(|| "--".to_string())),
            );
            serde_json::Value::Object(m)
        })
        .collect();
    serde_json::to_string(&values).unwrap_or_else(|_| "[]".to_string())
}

#[test]
fn listing_answer_text() {
    assert_eq!(entries_json(&[]), "[]");
    let es = vec![entry("Docs", true, None), entry("a \"b\"\\c\n.txt", false, Some(1536))];
    assert_eq!(
        entries_json(&es),
        "[{\"is_dir\":true,\"name\":\"Docs\",\"size\":\"--\"},{\"is_dir\":false,\"name\":\"a \\\"b\\\"\\\\c\\n.txt\",\"size\":\"1.5 KB\"}]"
    );
}

#[test]
fn listing_answer_matches_serde_values() {
    let es = vec![
        entry("été", false, Some(0)),
        entry("tab\there\u{1}", false, Some(5 * 1024 * 1024 * 1024)),
        entry("/slash", true, None),
    ];
    assert_eq!(entries_json(&es), answer_by_value(&es));
}
