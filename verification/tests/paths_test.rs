use pdrive_core::gui::{breadcrumb_for_path, BreadcrumbSegment};
use pdrive_core::paths::{child_path, file_name, is_plain_file_name_exec, parent_path};

fn crumbs(path: &str) -> Vec<(String, String)> {
    breadcrumb_for_path(path)
        .into_iter()
        .map(|s: BreadcrumbSegment| (s.label, s.path))
        .collect()
}

fn pairs(v: &[(&str, &str)]) -> Vec<(String, String)> {
    v.iter().map(|(a, b)| (a.to_string(), b.to_string())).collect()
}

#[test]
fn breadcrumb_root() {
    assert_eq!(crumbs("/"), pairs(&[("My Files", "/")]));
    assert_eq!(crumbs(""), pairs(&[("My Files", "/")]));
}

#[test]
fn breadcrumb_nested() {
    assert_eq!(
        crumbs("/Documents/Work"),
        pairs(&[("My Files", "/"), ("Documents", "/Documents"), ("Work", "/Documents/Work")])
    );
    assert_eq!(
        crumbs("//Documents//Work/"),
        pairs(&[("My Files", "/"), ("Documents", "/Documents"), ("Work", "/Documents/Work")])
    );
}

#[test]
fn breadcrumb_devices() {
    assert_eq!(crumbs("/computers"), pairs(&[("Computers", "/computers")]));
    assert_eq!(
        crumbs("/computers/laptop/Desktop"),
        pairs(&[
            ("Computers", "/computers"),
            ("laptop", "/computers/laptop"),
            ("Desktop", "/computers/laptop/Desktop"),
        ])
    );
    assert_eq!(
        crumbs("/computersX"),
        pairs(&[("My Files", "/"), ("computersX", "/computersX")])
    );
}

#[test]
fn child_paths() {
    assert_eq!(child_path("/", "a"), "/a");
    assert_eq!(child_path("", "a"), "/a");
    assert_eq!(child_path("/Documents", "a"), "/Documents/a");
    assert_eq!(child_path("/Documents/", "a"), "/Documents/a");
    assert_eq!(child_path("//", "a"), "/a");
}

#[test]
fn parent_paths() {
    assert_eq!(parent_path("/Documents/Work"), "/Documents");
    assert_eq!(parent_path("/Documents/Work/"), "/Documents");
    assert_eq!(parent_path("/Documents"), "/");
    assert_eq!(parent_path("/"), "/");
    assert_eq!(parent_path("Documents"), "/");
}

#[test]
fn back_from_a_child_returns_to_its_folder() {
    for folder in ["/", "", "/Documents", "/Documents/", "/a/b", "relative"] {
        let child = child_path(folder, "entry");
        let expected = if folder.trim_end_matches('/').is_empty() {
            "/".to_string()
        } else {
            folder.trim_end_matches('/').to_string()
        };
        assert_eq!(parent_path(&child), expected);
        assert_eq!(file_name(&child), "entry");
    }
}

#[test]
fn breadcrumb_grows_by_the_opened_name() {
    for folder in ["/", "/Documents", "/computers", "/computers/laptop/"] {
        let before: Vec<String> = crumbs(folder).into_iter().map(|p| p.0).collect();
        let after: Vec<String> =
            crumbs(&child_path(folder, "next")).into_iter().map(|p| p.0).collect();
        let mut expected = before.clone();
        expected.push("next".to_string());
        assert_eq!(after, expected);
    }
    // the one exception: a root entry named `computers`
    let after: Vec<String> =
        crumbs(&child_path("/", "computers")).into_iter().map(|p| p.0).collect();
    assert_eq!(after, vec!["Computers".to_string()]);
}

#[test]
fn file_names() {
    assert_eq!(file_name("/a/b/c.txt"), "c.txt");
    assert_eq!(file_name("c.txt"), "c.txt");
    assert_eq!(file_name("/a/"), "");
}

#[test]
fn plain_file_names() {
    assert!(is_plain_file_name_exec("report.pdf"));
    assert!(is_plain_file_name_exec("...") );
    assert!(!is_plain_file_name_exec(""));
    assert!(!is_plain_file_name_exec("."));
    assert!(!is_plain_file_name_exec(".."));
    assert!(!is_plain_file_name_exec("a/b"));
}

#[test]
fn breadcrumb_rebuilds_from_its_last_segment() {
    for path in [
        "/",
        "/Documents",
        "/Documents/Work/",
        "/a//b",
        "/computers",
        "/computers/",
        "/computers/laptop/Desktop",
        "/computersX/y",
    ] {
        let bar = breadcrumb_for_path(path);
        let last = bar[bar.len() - 1].path.clone();
        assert_eq!(crumbs(&last), crumbs(path), "rebuilding from {}", last);
    }
}
