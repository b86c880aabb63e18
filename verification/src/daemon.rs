//! Decisions of the background service that answers the front end over
//! D-Bus: its bus names, how a listing is chosen and cached, how a size is
//! shown, and which file name a download may use.
use vstd::prelude::*;
use crate::paths::{after_last_slash, file_name, is_plain_file_name, is_plain_file_name_exec};
use crate::size::{one_decimal, one_decimal_text, GIB, KIB, MIB};
use crate::text::{decimal, push_decimal, string_of};
use crate::drive::DriveEntry;
use crate::json::{json_string, json_string_text};
use crate::paths::push_str;
use vstd::utf8::encode_utf8;

verus! {

/// The D-Bus interface that the service exports.
pub const INTERFACE_NAME: &'static str = "org.protonmail.PDrive";

/// The object path at which the service is served.
pub const OBJECT_PATH: &'static str = "/org/protonmail/PDrive";

/// How long a folder listing is served from the cache, in seconds.
pub const LISTING_TTL_SECS: u64 = 60;

/// A byte count as the service shows it: `B` below one KiB, otherwise one
/// decimal in the largest of KB, MB, GB that is not above it.
pub open spec fn service_size_text(bytes: nat) -> Seq<char> {
    if bytes >= GIB {
        one_decimal_text(bytes, GIB as nat, seq!['G', 'B'])
    } else if bytes >= MIB {
        one_decimal_text(bytes, MIB as nat, seq!['M', 'B'])
    } else if bytes >= KIB {
        one_decimal_text(bytes, KIB as nat, seq!['K', 'B'])
    } else {
        decimal(bytes) + seq![' ', 'B']
    }
}

/// `human_size` of the service: `format!("{:.1} GB", ..)` and so on, and
/// `format!("{} B", bytes)` below 1024.
pub fn human_size(bytes: u64) -> (s: String)
    ensures
        s@ == service_size_text(bytes as nat),
{
    if bytes >= GIB {
        let r = one_decimal(bytes, GIB, "GB");
        proof {
            reveal_strlit("GB");
        }
        r
    } else if bytes >= MIB {
        let r = one_decimal(bytes, MIB, "MB");
        proof {
            reveal_strlit("MB");
        }
        r
    } else if bytes >= KIB {
        let r = one_decimal(bytes, KIB, "KB");
        proof {
            reveal_strlit("KB");
        }
        r
    } else {
        let mut out: Vec<char> = Vec::new();
        push_decimal(bytes as u128, &mut out);
        out.push(' ');
        out.push('B');
        proof {
            assert(out@ == Seq::<char>::empty() + decimal(bytes as nat) + seq![' ', 'B']);
        }
        string_of(&out)
    }
}

/// The answer to a status query: `running` while a drive session is
/// loaded, `no-session` otherwise.
pub fn status_text(has_session: bool) -> (s: String)
    ensures
        s@ == (if has_session { "running"@ } else { "no-session"@ }),
{
    if has_session {
        "running".to_string()
    } else {
        "no-session".to_string()
    }
}

/// The answer to a session reload: `ok` when a session could be loaded,
/// `no-session` otherwise.
pub fn reload_text(loaded: bool) -> (s: String)
    ensures
        s@ == (if loaded { "ok"@ } else { "no-session"@ }),
{
    if loaded {
        "ok".to_string()
    } else {
        "no-session".to_string()
    }
}

/// Where the entries of a remote folder come from.
#[derive(Debug, Clone, Copy, PartialEq, Eq, Structural)]
pub enum BrowseSource {
    /// The root of "My Files" (`/` or the empty path).
    Root,
    /// The devices section (`/computers` or `/sync`).
    Devices,
    /// A folder whose node was recorded by an earlier listing.
    RecordedFolder,
}

/// The source of a listing for `path`.
pub open spec fn browse_source_of(path: Seq<char>) -> BrowseSource {
    if crate::paths::is_root_path(path) {
        BrowseSource::Root
    } else if path == "/computers"@ || path == "/sync"@ {
        BrowseSource::Devices
    } else {
        BrowseSource::RecordedFolder
    }
}

/// Chooses where the listing of `path` comes from.
pub fn browse_source(path: &str) -> (s: BrowseSource)
    ensures
        s == browse_source_of(path@),
{
    let v = crate::text::chars_of(path);
    if crate::paths::is_root(&v) {
        return BrowseSource::Root;
    }
    let computers = crate::text::chars_of("/computers");
    let sync = crate::text::chars_of("/sync");
    if crate::text::same_chars(&v, &computers) || crate::text::same_chars(&v, &sync) {
        BrowseSource::Devices
    } else {
        BrowseSource::RecordedFolder
    }
}

/// A cached listing fetched `age_secs` seconds ago may still be served.
pub fn listing_is_fresh(age_secs: u64) -> (b: bool)
    ensures
        b == (age_secs < LISTING_TTL_SECS),
{
    age_secs < LISTING_TTL_SECS
}

/// The local file name a download of `remote_path` is saved under: the
/// name after its last `/`, when that is a plain file name.
pub fn download_name(remote_path: &str) -> (r: Option<String>)
    ensures
        r matches Some(n) ==> n@ == after_last_slash(remote_path@),
        r is Some <==> is_plain_file_name(after_last_slash(remote_path@)),
{
    let name = file_name(remote_path);
    if is_plain_file_name_exec(name.as_str()) {
        Some(name)
    } else {
        None
    }
}

/// Where a download named `name` is saved inside the local directory
/// `cache_dir`: the joined path, refused unless `cache_dir` is absolute (a
/// plain name always keeps the joined path inside `cache_dir`).
pub fn download_destination(cache_dir: &[u8], name: &str) -> (r: Option<Vec<u8>>)
    requires
        is_plain_file_name(name@),
    ensures
        match r {
            Some(p) => cache_dir@.len() > 0 && cache_dir@[0] == crate::dirs_env::PATH_SEPARATOR
                && p@ == crate::dirs_env::path_join(cache_dir@, encode_utf8(name@)),
            None => !(cache_dir@.len() > 0 && cache_dir@[0] == crate::dirs_env::PATH_SEPARATOR),
        },
{
    if cache_dir.len() > 0 && cache_dir[0] == crate::dirs_env::PATH_SEPARATOR {
        Some(crate::dirs_env::join(cache_dir, name))
    } else {
        None
    }
}

/// What the service has learned at a step of answering a listing request.
#[derive(Debug)]
pub enum BrowseEvent {
    /// The listing cache was consulted: the cached answer for the path
    /// and its age in seconds, when there is one.
    CacheLookup(Option<(String, u64)>),
    /// The drive session was looked up: whether one is available.
    Session(bool),
    /// The listing was attempted: whether it produced entries.
    Listed(bool),
}

/// What the service does next to answer a listing request.
#[derive(Debug)]
pub enum BrowseAction {
    /// Send this answer; the request is done.
    Reply(String),
    /// Get the drive session, loading it from the keyring if needed.
    LoadSession,
    /// List the folder.
    List,
    /// Record the listed entries' paths, cache the answer built from them
    /// with the current time, and send it.
    CacheAndReply,
}

/// The next step of a listing request: a cached answer is sent without
/// touching the drive while it is fresh; without a session or a listing
/// the answer is `[]` and nothing is cached; only a listing that produced
/// entries is cached.
pub fn browse_step(event: BrowseEvent) -> (a: BrowseAction)
    ensures
        match event {
            BrowseEvent::CacheLookup(Some((answer, age))) => if age < LISTING_TTL_SECS {
                a matches BrowseAction::Reply(r) && r@ == answer@
            } else {
                a is LoadSession
            },
            BrowseEvent::CacheLookup(None) => a is LoadSession,
            BrowseEvent::Session(available) => if available {
                a is List
            } else {
                a matches BrowseAction::Reply(r) && r@ == "[]"@
            },
            BrowseEvent::Listed(ok) => if ok {
                a is CacheAndReply
            } else {
                a matches BrowseAction::Reply(r) && r@ == "[]"@
            },
        },
{
    match event {
        BrowseEvent::CacheLookup(Some((answer, age))) => {
            if listing_is_fresh(age) {
                BrowseAction::Reply(answer)
            } else {
                BrowseAction::LoadSession
            }
        },
        BrowseEvent::CacheLookup(None) => BrowseAction::LoadSession,
        BrowseEvent::Session(available) => {
            if available {
                BrowseAction::List
            } else {
                BrowseAction::Reply("[]".to_string())
            }
        },
        BrowseEvent::Listed(ok) => {
            if ok {
                BrowseAction::CacheAndReply
            } else {
                BrowseAction::Reply("[]".to_string())
            }
        },
    }
}

/// What the service has learned at a step of getting the drive session.
#[derive(Debug, Clone, Copy, PartialEq, Eq, Structural)]
pub enum SessionEvent {
    /// The session was asked for: whether one is already held.
    Requested(bool),
    /// A new sign-in was announced; the held session is out of date.
    Reloaded,
    /// The keyring was read: whether a stored session was found, and
    /// whether a stored password was found (a failed read finds nothing).
    KeyringRead(bool, bool),
    /// The stored session was resumed: whether that succeeded.
    Restored(bool),
}

/// What the service does next to get the drive session.
#[derive(Debug, Clone, Copy, PartialEq, Eq, Structural)]
pub enum SessionAction {
    /// Use the session already held; done.
    UseHeld,
    /// Drop the held session with the listings and paths learned under it.
    Forget,
    /// Read the stored session and password from the keyring.
    ReadKeyring,
    /// Resume the stored session with the stored password.
    Restore,
    /// Hold the resumed session and use it; done.
    Adopt,
    /// There is no session; done.
    NoSession,
}

/// The next step of getting the drive session: a held session is used as
/// it is; otherwise the keyring is read, and only a stored session found
/// together with its password is resumed; a session that resumed is held
/// from then on. A new sign-in first drops what the old session held.
pub fn session_step(event: SessionEvent) -> (a: SessionAction)
    ensures
        a == match event {
            SessionEvent::Requested(held) => if held {
                SessionAction::UseHeld
            } else {
                SessionAction::ReadKeyring
            },
            SessionEvent::Reloaded => SessionAction::Forget,
            SessionEvent::KeyringRead(session, password) => if session && password {
                SessionAction::Restore
            } else {
                SessionAction::NoSession
            },
            SessionEvent::Restored(ok) => if ok {
                SessionAction::Adopt
            } else {
                SessionAction::NoSession
            },
        },
{
    match event {
        SessionEvent::Requested(held) => {
            if held {
                SessionAction::UseHeld
            } else {
                SessionAction::ReadKeyring
            }
        },
        SessionEvent::Reloaded => SessionAction::Forget,
        SessionEvent::KeyringRead(session, password) => {
            if session && password {
                SessionAction::Restore
            } else {
                SessionAction::NoSession
            }
        },
        SessionEvent::Restored(ok) => {
            if ok {
                SessionAction::Adopt
            } else {
                SessionAction::NoSession
            }
        },
    }
}

/// The size column of a listing answer: the service's size text, or
/// `--` for an entry without a size.
pub open spec fn size_shown(size: Option<u64>) -> Seq<char> {
    match size {
        Some(b) => service_size_text(b as nat),
        None => "--"@,
    }
}

/// One entry of a listing answer, given the JSON texts of its name and
/// size: an object whose keys come in sorted order, as serde_json writes
/// a `Value` object.
pub open spec fn entry_object_text(is_dir: bool, name: Seq<char>, size: Seq<char>) -> Seq<char> {
    "{\"is_dir\":"@ + (if is_dir {
        "true"@
    } else {
        "false"@
    }) + ",\"name\":"@ + name + ",\"size\":"@ + size + "}"@
}

/// The entries of a listing answer, separated by commas; nothing when the
/// JSON text of a name or a size could not be made.
pub open spec fn entries_items_text(es: Seq<DriveEntry>) -> Option<Seq<char>>
    decreases es.len(),
{
    if es.len() == 0 {
        Some(Seq::empty())
    } else {
        let e = es.last();
        match (
            entries_items_text(es.drop_last()),
            json_string_text(e.name@),
            json_string_text(size_shown(e.size)),
        ) {
            (Some(pre), Some(n), Some(z)) => Some(
                if es.len() == 1 {
                    entry_object_text(e.is_dir, n, z)
                } else {
                    pre + ","@ + entry_object_text(e.is_dir, n, z)
                },
            ),
            _ => None,
        }
    }
}

/// The answer to a listing request: a JSON array with one object per
/// entry (`is_dir`, `name`, `size`), or `[]` when it could not be written.
pub open spec fn entries_answer(es: Seq<DriveEntry>) -> Seq<char> {
    match entries_items_text(es) {
        Some(t) => "["@ + t + "]"@,
        None => "[]"@,
    }
}

proof fn lemma_items_text_failure_stays(es: Seq<DriveEntry>, i: int, k: int)
    requires
        0 <= i <= k <= es.len(),
        entries_items_text(es.take(i)) is None,
    ensures
        entries_items_text(es.take(k)) is None,
    decreases k - i,
{
    if k > i {
        lemma_items_text_failure_stays(es, i, k - 1);
        assert(es.take(k).drop_last() =~= es.take(k - 1));
    }
}

/// The listing answer for `entries`, as the service sends it.
pub fn entries_json(entries: &[DriveEntry]) -> (r: String)
    ensures
        r@ == entries_answer(entries@),
{
    let mut out: Vec<char> = Vec::new();
    let mut i: usize = 0;
    proof {
        assert(entries@.take(0) =~= Seq::<DriveEntry>::empty());
    }
    while i < entries.len()
        invariant
            i <= entries@.len(),
            entries_items_text(entries@.take(i as int)) == Some(out@),
        decreases entries@.len() - i,
    {
        let e = &entries[i];
        let name_q = json_string(e.name.as_str());
        let size_text = match e.size {
            Some(b) => human_size(b),
            None => "--".to_string(),
        };
        let size_q = json_string(size_text.as_str());
        let ghost t = entries@.take(i + 1);
        proof {
            assert(t.drop_last() =~= entries@.take(i as int));
            assert(t.last() == *e);
        }
        match (name_q, size_q) {
            (Some(n), Some(z)) => {
                let ghost pre = out@;
                if i > 0 {
                    push_str(&mut out, ",");
                }
                push_str(&mut out, "{\"is_dir\":");
                if e.is_dir {
                    push_str(&mut out, "true");
                } else {
                    push_str(&mut out, "false");
                }
                push_str(&mut out, ",\"name\":");
                push_str(&mut out, n.as_str());
                push_str(&mut out, ",\"size\":");
                push_str(&mut out, z.as_str());
                push_str(&mut out, "}");
                proof {
                    let obj = entry_object_text(e.is_dir, n@, z@);
                    if i > 0 {
                        assert(out@ =~= pre + ","@ + obj);
                    } else {
                        assert(pre.len() == 0);
                        assert(out@ =~= obj);
                    }
                }
            },
            _ => {
                proof {
                    lemma_items_text_failure_stays(entries@, i + 1, entries@.len() as int);
                    assert(entries@.take(entries@.len() as int) =~= entries@);
                }
                return "[]".to_string();
            },
        }
        i = i + 1;
    }
    proof {
        assert(entries@.take(entries@.len() as int) =~= entries@);
    }
    let mut all: Vec<char> = Vec::new();
    push_str(&mut all, "[");
    let ghost body = out@;
    let mut j: usize = 0;
    while j < out.len()
        invariant
            j <= out@.len(),
            out@ == body,
            all@ == "["@ + body.take(j as int),
        decreases out@.len() - j,
    {
        all.push(out[j]);
        proof {
            assert(body.take(j + 1) =~= body.take(j as int).push(body[j as int]));
        }
        j = j + 1;
    }
    push_str(&mut all, "]");
    proof {
        assert(body.take(body.len() as int) =~= body);
    }
    string_of(&all)
}

} // verus!
