use pdrive_core::gui::{captcha_token, dark_mode_from, dark_mode_text, human_size, items_status};
use pdrive_core::tray::{PdriveTray, TrayAction, TrayMenuItem};

fn float_list_size(bytes: u64) -> String {
    const GB: u64 = 1024 * 1024 * 1024;
    const MB: u64 = 1024 * 1024;
    const KB: u64 = 1024;
    if bytes >= GB {
        format!("{:.1} GB", bytes as f64 / GB as f64)
    } else if bytes >= MB {
        format!("{:.1} MB", bytes as f64 / MB as f64)
    } else {
        format!("{:.1} KB", bytes as f64 / KB as f64)
    }
}

#[test]
fn list_size_examples() {
    assert_eq!(human_size(0), "0.0 KB");
    assert_eq!(human_size(512), "0.5 KB");
    assert_eq!(human_size(256), "0.2 KB");
    assert_eq!(human_size(1024), "1.0 KB");
    assert_eq!(human_size(3 * 1024 * 1024), "3.0 MB");
    assert_eq!(human_size(1536 * 1024 * 1024), "1.5 GB");
}

#[test]
fn list_size_matches_float_formatting() {
    let mut seed: u64 = 0x2545f4914f6cdd1d;
    for b in 0..3000u64 {
        assert_eq!(human_size(b), float_list_size(b), "bytes = {}", b);
    }
    for _ in 0..20000 {
        seed ^= seed << 13;
        seed ^= seed >> 7;
        seed ^= seed << 17;
        let b = seed >> (seed % 64);
        assert_eq!(human_size(b), float_list_size(b), "bytes = {}", b);
    }
}

#[test]
fn item_counts() {
    assert_eq!(items_status(0), "0 items");
    assert_eq!(items_status(1), "1 item");
    assert_eq!(items_status(2), "2 items");
    assert_eq!(items_status(1234), "1234 items");
}

#[test]
fn dark_mode_flag() {
    assert!(dark_mode_from(Some("true".to_string())));
    assert!(dark_mode_from(Some("  true\n".to_string())));
    assert!(dark_mode_from(Some("\u{3000}true\u{a0}".to_string())));
    assert!(!dark_mode_from(Some("false".to_string())));
    assert!(!dark_mode_from(Some("True".to_string())));
    assert!(!dark_mode_from(Some("".to_string())));
    assert!(!dark_mode_from(None));
    for dark in [true, false] {
        assert_eq!(dark_mode_from(Some(dark_mode_text(dark))), dark);
    }
}

#[test]
fn tray_identity_and_menu() {
    let tray = PdriveTray { on_open: 1u8, on_pause: 2u8, on_resume: 3u8, on_quit: 4u8 };
    assert_eq!(tray.id(), "pdrive");
    assert_eq!(tray.title(), "Proton Drive");
    assert_eq!(tray.icon_name(), "network-server");
    let menu = tray.menu();
    let shape: Vec<Option<(String, TrayAction)>> = menu
        .into_iter()
        .map(|i| match i {
            TrayMenuItem::Standard { label, action } => Some((label, action)),
            TrayMenuItem::Separator => None,
        })
        .collect();
    assert_eq!(
        shape,
        vec![
            Some(("Open Proton Drive".to_string(), TrayAction::Open)),
            None,
            Some(("Pause Sync".to_string(), TrayAction::Pause)),
            Some(("Resume Sync".to_string(), TrayAction::Resume)),
            None,
            Some(("Quit".to_string(), TrayAction::Quit)),
        ]
    );
    assert_eq!(*tray.callback(TrayAction::Pause), 2);
    assert_eq!(*tray.callback(TrayAction::Quit), 4);
}

#[test]
fn captcha_tokens() {
    assert_eq!(captcha_token("abc:sig123\n"), Some("abc:sig123".to_string()));
    assert_eq!(captcha_token("\n  \r\n  tok  \r\nrest"), Some("tok".to_string()));
    assert_eq!(captcha_token(""), None);
    assert_eq!(captcha_token(" \n\t\n"), None);
    for out in ["x\ny", "\n\nz", "  a b  ", "\r\n\r\nq\r\n"] {
        let expected = out.lines().find(|l| !l.trim().is_empty()).map(|l| l.trim().to_string());
        assert_eq!(captcha_token(out), expected);
    }
}
