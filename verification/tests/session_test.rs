use pdrive_core::auth::{
    delete_outcome, entries_to_clear, read_outcome, session_id_of, KeyringError, SecretKind,
    StoredSession, TokenStore, KEYRING_PASSWORD, KEYRING_SERVICE, KEYRING_SESSION,
};
use pdrive_core::drive::{
    node_to_entry_and_uid, password_mode_code, password_mode_from_code,
    NodeInfo, NodeKind, PasswordMode,
};
use pdrive_core::drive::DriveClient;
use pdrive_core::json::{hv_token_in, json_part, parse_json, Json};

fn token_of(message: &str) -> Option<String> {
    DriveClient::extract_hv_token(message)
}

#[test]
fn human_verification_token() {
    let msg = r#"SRP auth failed: API error 422: {"Code":9001,"Details":{"HumanVerificationToken":"tok-123","Methods":["captcha"]}}"#;
    assert_eq!(token_of(msg), Some("tok-123".to_string()));
}

#[test]
fn no_token_for_other_codes_or_shapes() {
    assert_eq!(token_of(r#"err: {"Code":8002,"Details":{"HumanVerificationToken":"x"}}"#), None);
    assert_eq!(token_of(r#"err: {"Code":9001,"Details":{}}"#), None);
    assert_eq!(token_of(r#"err: {"Code":9001,"Details":{"HumanVerificationToken":7}}"#), None);
    assert_eq!(token_of(r#"err: {"Code":9001.0,"Details":{"HumanVerificationToken":"x"}}"#), None);
    assert_eq!(token_of("plain failure"), None);
    assert_eq!(token_of("broken {json"), None);
    // text after the document makes it no single JSON document
    assert_eq!(token_of(r#"err: {"Code":9001,"Details":{"HumanVerificationToken":"x"}} (retry)"#), None);
    // the first `{` starts the document
    assert_eq!(token_of(r#"{bad} {"Code":9001,"Details":{"HumanVerificationToken":"x"}}"#), None);
}

#[test]
fn json_part_starts_at_first_brace() {
    assert_eq!(json_part("a {b} {c}"), Some("{b} {c}".to_string()));
    assert_eq!(json_part("none"), None);
}

#[test]
fn keyring_reads() {
    match read_outcome(SecretKind::Session, Ok("{}".to_string())) {
        Ok(Some(t)) => assert_eq!(t, "{}"),
        _ => panic!("expected a stored value"),
    }
    assert!(matches!(read_outcome(SecretKind::Password, Err(KeyringError::NoEntry)), Ok(None)));
    match read_outcome(SecretKind::Session, Err(KeyringError::Other("locked".into()))) {
        Err(e) => assert_eq!(e.message, "keyring read error: locked"),
        _ => panic!("expected an error"),
    }
    match read_outcome(SecretKind::Password, Err(KeyringError::Other("locked".into()))) {
        Err(e) => assert_eq!(e.message, "keyring read password error: locked"),
        _ => panic!("expected an error"),
    }
}

#[test]
fn keyring_deletes() {
    assert!(delete_outcome(Ok(())).is_ok());
    assert!(delete_outcome(Err(KeyringError::NoEntry)).is_ok());
    match delete_outcome(Err(KeyringError::Other("denied".into()))) {
        Err(e) => assert_eq!(e.message, "keyring delete error: denied"),
        _ => panic!("expected an error"),
    }
    assert_eq!(entries_to_clear(), vec![KEYRING_SESSION, KEYRING_PASSWORD]);
    assert_eq!(KEYRING_SERVICE, "proton-drive");
}

#[test]
fn stored_session_id() {
    let s = StoredSession {
        session_id: "sid".into(),
        username: "u".into(),
        user_id: "uid".into(),
        access_token: "a".into(),
        refresh_token: "r".into(),
        scopes: vec!["full".into()],
        is_2fa: false,
        password_mode: 2,
    };
    assert_eq!(session_id_of(Some(s)), Some("sid".to_string()));
    assert_eq!(session_id_of(None), None);
    let _store = TokenStore::new(TokenStore::default_path());
    assert_eq!(TokenStore::default_path(), "");
}

#[test]
fn password_modes() {
    assert_eq!(password_mode_code(PasswordMode::Dual), 2);
    assert_eq!(password_mode_code(PasswordMode::Single), 1);
    assert_eq!(password_mode_from_code(2), PasswordMode::Dual);
    assert_eq!(password_mode_from_code(1), PasswordMode::Single);
    assert_eq!(password_mode_from_code(0), PasswordMode::Single);
    for m in [PasswordMode::Single, PasswordMode::Dual] {
        assert_eq!(password_mode_from_code(password_mode_code(m)), m);
    }
}

fn node(kind: NodeKind, uid: &str, name: &str, size: i64) -> NodeInfo {
    NodeInfo { kind, uid: uid.into(), name: name.into(), total_size_on_cloud_storage: size }
}

#[test]
fn nodes_to_entries() {
    let (e, uid) = node_to_entry_and_uid(node(NodeKind::Folder, "u1", "Docs", 0)).unwrap();
    assert_eq!((e.id.as_str(), e.name.as_str(), e.is_dir, e.size, e.modified), ("u1", "Docs", true, None, None));
    assert_eq!(uid, "u1");
    let (e, _) = node_to_entry_and_uid(node(NodeKind::File, "u2", "a.txt", 5)).unwrap();
    assert_eq!((e.is_dir, e.size), (false, Some(5)));
    let (e, _) = node_to_entry_and_uid(node(NodeKind::File, "u3", "b.txt", -1)).unwrap();
    assert_eq!(e.size, None);
    assert!(node_to_entry_and_uid(node(NodeKind::Photo, "u4", "p.jpg", 9)).is_none());
    let (e, _) = node_to_entry_and_uid(node(NodeKind::Album, "u5", "Trip", 0)).unwrap();
    assert!(e.is_dir);
}


#[test]
fn parsed_documents() {
    match parse_json(r#"{"a":[1,-2,3.5,"s",null,true],"b":{"c":18446744073709551615}}"#) {
        Some(Json::Object(m)) => {
            assert_eq!(m.len(), 2);
            assert_eq!(m[0].0, "a");
            match &m[0].1 {
                Json::Array(a) => {
                    assert!(matches!(a[0], Json::Number(Some(1))));
                    assert!(matches!(a[1], Json::Number(Some(-2))));
                    assert!(matches!(a[2], Json::Number(None)));
                    assert!(matches!(&a[3], Json::Str(s) if s == "s"));
                    assert!(matches!(a[4], Json::Null));
                    assert!(matches!(a[5], Json::Bool(true)));
                }
                _ => panic!("expected an array"),
            }
            match &m[1].1 {
                Json::Object(inner) => assert!(matches!(inner[0].1, Json::Number(None))),
                _ => panic!("expected an object"),
            }
        }
        _ => panic!("expected an object"),
    }
    assert!(parse_json("[1,").is_none());
    let v = parse_json(r#"{"Code":9001,"Details":{"HumanVerificationToken":"t"}}"#).unwrap();
    assert_eq!(hv_token_in(&v), Some("t".to_string()));
}
