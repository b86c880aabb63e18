use pdrive_core::drive::{check_second_factor, check_sign_in, DriveEntry};
use pdrive_core::path_cache::{BrowsePlan, PathCache};

fn entry(name: &str, is_dir: bool) -> DriveEntry {
    DriveEntry { id: format!("id-{}", name), name: name.to_string(), is_dir, size: None, modified: None }
}

#[test]
fn recorded_paths_are_found_again() {
    let mut cache: PathCache<u32> = PathCache::new();
    cache.insert("/".to_string(), 0);
    let listed = cache.record_listing(
        "/",
        vec![(entry("Documents", true), 1), (entry("notes.txt", false), 2)],
    );
    assert_eq!(listed.len(), 2);
    assert_eq!(listed[0].name, "Documents");
    assert_eq!(cache.get("/Documents"), Some(&1));
    assert_eq!(cache.get("/notes.txt"), Some(&2));
    assert_eq!(cache.get("/"), Some(&0));
    assert_eq!(cache.get("/missing"), None);

    let _ = cache.record_listing("/Documents/", vec![(entry("a.pdf", false), 3)]);
    assert_eq!(cache.get("/Documents/a.pdf"), Some(&3));

    // a later entry with the same name wins
    let _ = cache.record_listing("/", vec![(entry("x", false), 4), (entry("x", false), 5)]);
    assert_eq!(cache.get("/x"), Some(&5));

    cache.insert("/x".to_string(), 6);
    assert_eq!(cache.get("/x"), Some(&6));
    cache.clear();
    assert_eq!(cache.get("/x"), None);
}

#[test]
fn browse_plans() {
    let mut cache: PathCache<u32> = PathCache::new();
    let _ = cache.record_listing("/", vec![(entry("Documents", true), 7)]);
    assert!(matches!(cache.browse_plan("/"), BrowsePlan::Root));
    assert!(matches!(cache.browse_plan(""), BrowsePlan::Root));
    assert!(matches!(cache.browse_plan("/computers"), BrowsePlan::Devices));
    assert!(matches!(cache.browse_plan("/sync"), BrowsePlan::Devices));
    assert!(matches!(cache.browse_plan("/Documents"), BrowsePlan::Folder(&7)));
    assert!(matches!(cache.browse_plan("/Music"), BrowsePlan::NotRecorded));
}

#[test]
fn download_plans() {
    let mut cache: PathCache<u32> = PathCache::new();
    let _ = cache.record_listing(
        "/Documents",
        vec![(entry("report.pdf", false), 9), (entry("..", false), 10)],
    );
    assert_eq!(
        cache.download_plan("/Documents/report.pdf", b"/home/a/.cache/pdrive"),
        Some((&9, b"/home/a/.cache/pdrive/report.pdf".to_vec()))
    );
    assert_eq!(cache.download_plan("/Documents/..", b"/home/a/.cache/pdrive"), None);
    assert_eq!(cache.download_plan("/Documents/other.pdf", b"/home/a/.cache/pdrive"), None);
    assert_eq!(cache.download_plan("/Documents/report.pdf", b"relative"), None);
}

#[test]
fn sign_in_checks() {
    match check_sign_in("", None) {
        Err(e) => assert_eq!(e.message, "username is empty \u{2014} please enter your email or username"),
        Ok(()) => panic!("empty username accepted"),
    }
    match check_sign_in("user", Some("")) {
        Err(e) => assert_eq!(e.message, "verification code is empty"),
        Ok(()) => panic!("empty code accepted"),
    }
    assert!(check_sign_in("user", Some("123456")).is_ok());
    assert!(check_sign_in("user", None).is_ok());
    match check_second_factor(true) {
        Err(e) => assert_eq!(e.message, "2FA is required for this account but is not yet supported"),
        Ok(()) => panic!("second factor accepted"),
    }
    assert!(check_second_factor(false).is_ok());
}
