//! Session persistence: what is stored in the system keyring to resume a
//! session, under which names, and what each answer of the keyring means.
use vstd::prelude::*;

verus! {

/// The keyring service the client's secrets are stored under.
pub const KEYRING_SERVICE: &'static str = "proton-drive";

/// The keyring entry that holds the serialized session.
pub const KEYRING_SESSION: &'static str = "session-v2";

/// The keyring entry that holds the login password.
pub const KEYRING_PASSWORD: &'static str = "session-password";

/// Everything needed to restore a session after a restart.
#[derive(Debug, Clone)]
pub struct StoredSession {
    pub session_id: String,
    pub username: String,
    pub user_id: String,
    pub access_token: String,
    pub refresh_token: String,
    pub scopes: Vec<String>,
    pub is_2fa: bool,
    /// 1 = Single, 2 = Dual
    pub password_mode: u8,
}

/// Where sessions are kept. Secrets live in the system keyring, so the
/// store needs no file of its own.
pub struct TokenStore;

impl TokenStore {
    /// A store; the path is accepted for compatibility and not used.
    pub fn new(_path: String) -> (s: Self) {
        TokenStore
    }

    /// The store's default path: empty, as the keyring needs none.
    pub fn default_path() -> (p: String)
        ensures
            p@ == Seq::<char>::empty(),
    {
        String::new()
    }
}

/// What the keyring answered when an entry was read or removed.
#[derive(Debug, Clone)]
pub enum KeyringError {
    /// The entry does not exist.
    NoEntry,
    /// Any other failure, with the keyring's message.
    Other(String),
}

/// Why a session could not be stored, read or cleared.
#[derive(Debug, Clone)]
pub struct AuthError {
    pub message: String,
}

/// Which entry a read was for; it names the failure.
#[derive(Debug, Clone, Copy, PartialEq, Eq, Structural)]
pub enum SecretKind {
    Session,
    Password,
}

/// The message for a failed read of `kind`.
pub open spec fn read_failure(kind: SecretKind, detail: Seq<char>) -> Seq<char> {
    match kind {
        SecretKind::Session => "keyring read error: "@ + detail,
        SecretKind::Password => "keyring read password error: "@ + detail,
    }
}

fn prefixed(prefix: &str, detail: &String) -> (m: String)
    ensures
        m@ == prefix@ + detail@,
{
    let mut m = prefix.to_string();
    m.append(detail.as_str());
    m
}

/// What a read of a keyring entry means: its text when it exists, nothing
/// when there is no entry, a failure otherwise.
pub fn read_outcome(kind: SecretKind, r: Result<String, KeyringError>) -> (o: Result<
    Option<String>,
    AuthError,
>)
    ensures
        match r {
            Ok(t) => o matches Ok(Some(x)) && x@ == t@,
            Err(KeyringError::NoEntry) => o matches Ok(None),
            Err(KeyringError::Other(d)) => o matches Err(e) && e.message@ == read_failure(kind, d@),
        },
{
    match r {
        Ok(t) => Ok(Some(t)),
        Err(KeyringError::NoEntry) => Ok(None),
        Err(KeyringError::Other(d)) => {
            let m = match kind {
                SecretKind::Session => prefixed("keyring read error: ", &d),
                SecretKind::Password => prefixed("keyring read password error: ", &d),
            };
            Err(AuthError { message: m })
        },
    }
}

/// What removing a keyring entry means: a missing entry counts as
/// removed; any other failure stops the clearing.
pub fn delete_outcome(r: Result<(), KeyringError>) -> (o: Result<(), AuthError>)
    ensures
        match r {
            Ok(()) => o is Ok,
            Err(KeyringError::NoEntry) => o is Ok,
            Err(KeyringError::Other(d)) => o matches Err(e) && e.message@ == "keyring delete error: "@
                + d@,
        },
{
    match r {
        Ok(()) => Ok(()),
        Err(KeyringError::NoEntry) => Ok(()),
        Err(KeyringError::Other(d)) => Err(AuthError { message: prefixed("keyring delete error: ", &d) }),
    }
}

/// The entries a clear removes, in order: the session, then the password.
pub fn entries_to_clear() -> (v: Vec<&'static str>)
    ensures
        v@.len() == 2,
        v@[0]@ == KEYRING_SESSION@,
        v@[1]@ == KEYRING_PASSWORD@,
{
    let mut v: Vec<&'static str> = Vec::new();
    v.push(KEYRING_SESSION);
    v.push(KEYRING_PASSWORD);
    v
}

/// The session id of a stored session, if one is stored (the quick check
/// the front end makes at start).
pub fn session_id_of(s: Option<StoredSession>) -> (id: Option<String>)
    ensures
        match s {
            Some(x) => id matches Some(i) && i@ == x.session_id@,
            None => id is None,
        },
{
    match s {
        Some(x) => Some(x.session_id),
        None => None,
    }
}

} // verus!
