//! Drive access: the entries shown in the file list, the client that lists
//! and transfers files, and the pieces of the sign-in and listing flows
//! that decide what an answer of the service means.
use vstd::prelude::*;
use crate::sdk::{DriveNode, ProtonDriveClient, SdkError, example_node, example_token, node_view};

verus! {

/// A file or folder as the file list shows it.
#[derive(Debug, Clone)]
pub struct DriveEntry {
    pub id: String,
    pub name: String,
    pub is_dir: bool,
    pub size: Option<u64>,
    pub modified: Option<i64>,
}

/// An entry as (id, name, is a directory, size, modification time).
pub open spec fn entry_view(e: DriveEntry) -> (Seq<char>, Seq<char>, bool, Option<u64>, Option<i64>) {
    (e.id@, e.name@, e.is_dir, e.size, e.modified)
}

impl From<DriveNode> for DriveEntry {
    /// The entry for a listed node: every field carried over.
    fn from(node: DriveNode) -> (e: Self) {
        DriveEntry {
            id: node.id,
            name: node.name,
            is_dir: node.is_directory,
            size: node.size,
            modified: node.modified_at,
        }
    }
}

impl vstd::std_specs::convert::FromSpecImpl<DriveNode> for DriveEntry {
    open spec fn obeys_from_spec() -> bool {
        true
    }

    open spec fn from_spec(node: DriveNode) -> DriveEntry {
        DriveEntry {
            id: node.id,
            name: node.name,
            is_dir: node.is_directory,
            size: node.size,
            modified: node.modified_at,
        }
    }
}

/// Why a drive operation failed.
#[derive(Debug, Clone)]
pub struct DriveError {
    pub message: String,
}

fn sdk_failure(what: &str, e: &SdkError) -> (d: DriveError)
    ensures
        d.message@ == what@ + "Proton Drive SDK error: "@ + e.0@,
{
    let mut m = what.to_string();
    let detail = e.message();
    m.append(detail.as_str());
    DriveError { message: m }
}

/// A signed-in drive client.
pub struct DriveClient {
    inner: ProtonDriveClient,
}

impl DriveClient {
    /// The account this client signed in as.
    pub closed spec fn username(&self) -> Seq<char> {
        self.inner.username()
    }

    /// Signs in to the drive service (`login failed: ...` when the service
    /// refuses; the placeholder service never does).
    pub fn login(username: &str, password: &str) -> (r: Result<Self, DriveError>)
        ensures
            r matches Ok(c) && c.username() == username@,
    {
        match ProtonDriveClient::login(username, password) {
            Ok(inner) => Ok(DriveClient { inner }),
            Err(e) => Err(sdk_failure("login failed: ", &e)),
        }
    }

    /// The entries at `remote_path`, one per listed node, in the service's
    /// order (`list failed: ...` when the service fails).
    pub fn list(&self, remote_path: &str) -> (r: Result<Vec<DriveEntry>, DriveError>)
        ensures
            r matches Ok(entries) && entries@.len() == 1 && entry_view(entries@[0])
                == example_node(),
    {
        match self.inner.ls(remote_path) {
            Ok(nodes) => {
                let mut entries: Vec<DriveEntry> = Vec::new();
                let mut i: usize = 0;
                while i < nodes.len()
                    invariant
                        i <= nodes.len(),
                        entries@.len() == i,
                        forall|j: int|
                            0 <= j < i ==> #[trigger] entry_view(entries@[j]) == node_view(
                                nodes@[j],
                            ),
                    decreases nodes.len() - i,
                {
                    let e = DriveEntry::from(nodes[i].duplicate());
                    entries.push(e);
                    i = i + 1;
                }
                Ok(entries)
            },
            Err(e) => Err(sdk_failure("list failed: ", &e)),
        }
    }

    /// Uploads the local file at `local` to `remote_path`
    /// (`upload failed: ...` when the service fails).
    pub fn upload(&self, local: &str, remote_path: &str) -> (r: Result<(), DriveError>)
        ensures
            r is Ok,
    {
        match self.inner.put(local, remote_path) {
            Ok(()) => Ok(()),
            Err(e) => Err(sdk_failure("upload failed: ", &e)),
        }
    }

    /// Downloads the remote file `remote_id` to `local`
    /// (`download failed: ...` when the service fails).
    pub fn download(&self, remote_id: &str, local: &str) -> (r: Result<(), DriveError>)
        ensures
            r is Ok,
    {
        match self.inner.get(remote_id, local) {
            Ok(()) => Ok(()),
            Err(e) => Err(sdk_failure("download failed: ", &e)),
        }
    }

    /// The session token to keep for a later start.
    pub fn session_token(&self) -> (t: Option<String>)
        ensures
            t matches Some(s) && s@ == example_token(),
    {
        self.inner.session_token()
    }

    /// The human-verification token in the message of a failed sign-in:
    /// the JSON document from the message's first `{` on, read by
    /// `serde_json`, when its `Code` is 9001 and its
    /// `Details.HumanVerificationToken` is text.
    pub fn extract_hv_token(message: &str) -> (t: Option<String>)
        ensures
            crate::json::opt_text(t) == match crate::json::json_part_of(message@) {
                Some(j) => match crate::json::json_document(j) {
                    Some(v) => crate::json::hv_token_of(v),
                    None => None,
                },
                None => None,
            },
    {
        match crate::json::json_part(message) {
            Some(part) => match crate::json::parse_json(part.as_str()) {
                Some(v) => crate::json::hv_token_in(&v),
                None => None,
            },
            None => None,
        }
    }
}

/// The kind of a node the drive service lists.
#[derive(Debug, Clone, Copy, PartialEq, Eq, Structural)]
pub enum NodeKind {
    Folder,
    Album,
    Photo,
    File,
}

/// What the file list reads of a node the service listed: its kind, its
/// uid as text, its name, and (for files) its size on cloud storage.
#[derive(Debug, Clone)]
pub struct NodeInfo {
    pub kind: NodeKind,
    pub uid: String,
    pub name: String,
    pub total_size_on_cloud_storage: i64,
}

impl NodeInfo {
    /// A copy of this node's description.
    pub fn duplicate(&self) -> (n: NodeInfo)
        ensures
            n.kind == self.kind,
            n.uid@ == self.uid@,
            n.name@ == self.name@,
            n.total_size_on_cloud_storage == self.total_size_on_cloud_storage,
    {
        NodeInfo {
            kind: self.kind,
            uid: self.uid.clone(),
            name: self.name.clone(),
            total_size_on_cloud_storage: self.total_size_on_cloud_storage,
        }
    }
}

/// The entry shown for a node, with the node's uid: folders and albums
/// are directories, files carry their size when it is not negative, and
/// photos are not shown.
pub open spec fn node_entry(n: NodeInfo) -> Option<((Seq<char>, Seq<char>, bool, Option<u64>, Option<i64>), Seq<char>)> {
    match n.kind {
        NodeKind::Folder | NodeKind::Album => Some(((n.uid@, n.name@, true, None, None), n.uid@)),
        NodeKind::Photo => None,
        NodeKind::File => Some((
            (
                n.uid@,
                n.name@,
                false,
                if n.total_size_on_cloud_storage >= 0 {
                    Some(n.total_size_on_cloud_storage as u64)
                } else {
                    None
                },
                None,
            ),
            n.uid@,
        )),
    }
}

/// The entry (and uid) the file list shows for a listed node.
pub fn node_to_entry_and_uid(node: NodeInfo) -> (r: Option<(DriveEntry, String)>)
    ensures
        node_entry(node) == match r {
            Some((e, uid)) => Some((entry_view(e), uid@)),
            None => None,
        },
{
    match node.kind {
        NodeKind::Folder | NodeKind::Album => {
            let uid = node.uid.clone();
            Some((DriveEntry { id: node.uid, name: node.name, is_dir: true, size: None, modified: None }, uid))
        },
        NodeKind::Photo => None,
        NodeKind::File => {
            let uid = node.uid.clone();
            let size: Option<u64> = if node.total_size_on_cloud_storage >= 0 {
                Some(node.total_size_on_cloud_storage as u64)
            } else {
                None
            };
            Some((DriveEntry { id: node.uid, name: node.name, is_dir: false, size, modified: None }, uid))
        },
    }
}

/// One item of a folder's listing, in the order the service streams them.
pub enum ListedChild<U> {
    /// A node the service listed, with its uid where it carries one.
    Node(NodeInfo, Option<U>),
    /// A node the service could not read; it is skipped.
    Degraded,
    /// The stream failed at this point.
    Failed,
}

/// An entry as the listing records it, with the node's uid.
pub open spec fn listed_view<U>(v: Seq<(DriveEntry, U)>) -> Seq<(
    (Seq<char>, Seq<char>, bool, Option<u64>, Option<i64>),
    U,
)> {
    Seq::new(v.len(), |i: int| (entry_view(v[i].0), v[i].1))
}

/// What a folder listing made of `items` gives: the entries of the
/// nodes that have an entry and a uid, in order (degraded items and
/// photos are left out), or nothing at all when the stream failed.
pub open spec fn listing_of<U>(items: Seq<ListedChild<U>>) -> Option<
    Seq<((Seq<char>, Seq<char>, bool, Option<u64>, Option<i64>), U)>,
>
    decreases items.len(),
{
    if items.len() == 0 {
        Some(Seq::empty())
    } else {
        match listing_of(items.drop_last()) {
            None => None,
            Some(acc) => match items.last() {
                ListedChild::Failed => None,
                ListedChild::Degraded => Some(acc),
                ListedChild::Node(n, uid) => match (node_entry(n), uid) {
                    (Some((e, _)), Some(u)) => Some(acc.push((e, u))),
                    _ => Some(acc),
                },
            },
        }
    }
}

proof fn lemma_failed_listing_stays_failed<U>(s: Seq<ListedChild<U>>, t: Seq<ListedChild<U>>)
    requires
        listing_of(s) is None,
    ensures
        listing_of(s + t) is None,
    decreases t.len(),
{
    if t.len() == 0 {
        assert(s + t =~= s);
    } else {
        lemma_failed_listing_stays_failed(s, t.drop_last());
        assert((s + t).drop_last() =~= s + t.drop_last());
    }
}

/// The entries of a folder from the items the service streamed: each
/// node that has an entry and a uid, in order; `None` as soon as an item
/// is a failure, so that no partial listing is returned.
pub fn collect_listing<U>(items: Vec<ListedChild<U>>) -> (r: Option<Vec<(DriveEntry, U)>>)
    ensures
        r is None <==> listing_of(items@) is None,
        r matches Some(v) ==> listing_of(items@) == Some(listed_view(v@)),
{
    let ghost all = items@;
    let mut rest = items;
    let n = rest.len();
    let mut out: Vec<(DriveEntry, U)> = Vec::new();
    let mut i: usize = 0;
    proof {
        assert(all.take(0) =~= Seq::<ListedChild<U>>::empty());
        assert(listed_view(out@) =~= Seq::empty());
    }
    while i < n
        invariant
            rest.len() == n,
            n == all.len(),
            all == items@,
            i <= n,
            forall|j: int| i <= j < n ==> rest@[j] == all[j],
            listing_of(all.take(i as int)) == Some(listed_view(out@)),
        decreases n - i,
    {
        let mut item = ListedChild::Degraded;
        rest.set_and_swap(i, &mut item);
        let ghost next = all.take(i + 1);
        proof {
            assert(item == all[i as int]);
            assert(next.drop_last() =~= all.take(i as int));
            assert(next.last() == item);
        }
        match item {
            ListedChild::Failed => {
                proof {
                    assert(next.len() > 0);
                    assert(listing_of(next) is None);
                    lemma_failed_listing_stays_failed(next, all.skip(i + 1));
                    assert(next + all.skip(i + 1) =~= all);
                    assert(listing_of(all) is None);
                }
                return None;
            },
            ListedChild::Degraded => {},
            ListedChild::Node(node, uid) => {
                let entry = node_to_entry_and_uid(node);
                match (entry, uid) {
                    (Some((e, _)), Some(u)) => {
                        let ghost before = out@;
                        out.push((e, u));
                        proof {
                            assert(listed_view(out@) =~= listed_view(before).push(
                                (entry_view(e), u),
                            ));
                        }
                    },
                    _ => {},
                }
            },
        }
        i = i + 1;
    }
    proof {
        assert(all.take(n as int) =~= all);
    }
    Some(out)
}

/// How the account's data password relates to its login password.
#[derive(Debug, Clone, Copy, PartialEq, Eq, Structural)]
pub enum PasswordMode {
    Single,
    Dual,
}

/// The number a password mode is stored as: 2 for dual, 1 for single.
pub open spec fn mode_code(m: PasswordMode) -> u8 {
    if m == PasswordMode::Dual { 2 } else { 1 }
}

/// The password mode a stored number stands for: dual for 2, single for
/// anything else.
pub open spec fn mode_of_code(c: u8) -> PasswordMode {
    if c == 2 { PasswordMode::Dual } else { PasswordMode::Single }
}

/// The number a password mode is stored as.
pub fn password_mode_code(m: PasswordMode) -> (c: u8)
    ensures
        c == mode_code(m),
{
    match m {
        PasswordMode::Dual => 2,
        PasswordMode::Single => 1,
    }
}

/// The password mode a stored number stands for.
pub fn password_mode_from_code(c: u8) -> (m: PasswordMode)
    ensures
        m == mode_of_code(c),
{
    if c == 2 {
        PasswordMode::Dual
    } else {
        PasswordMode::Single
    }
}

/// A stored session resumes with the password mode it was saved with.
pub proof fn law_password_mode_round_trip(m: PasswordMode)
    ensures
        mode_of_code(mode_code(m)) == m,
{
}

/// The failure a sign-in gives before it reaches the service: an empty
/// username, then (when a verification code is given) an empty code.
pub open spec fn sign_in_refusal(username: Seq<char>, code: Option<Seq<char>>) -> Option<Seq<char>> {
    if username.len() == 0 {
        Some("username is empty \u{2014} please enter your email or username"@)
    } else {
        match code {
            Some(c) => if c.len() == 0 { Some("verification code is empty"@) } else { None },
            None => None,
        }
    }
}

/// Checks the inputs of a sign-in (with `code` for a sign-in that carries
/// an email verification code) before the service is asked.
pub fn check_sign_in(username: &str, code: Option<&str>) -> (r: Result<(), DriveError>)
    ensures
        match sign_in_refusal(username@, match code { Some(c) => Some(c@), None => None }) {
            Some(m) => r matches Err(e) && e.message@ == m,
            None => r is Ok,
        },
{
    if crate::text::chars_of(username).len() == 0 {
        return Err(DriveError { message: "username is empty \u{2014} please enter your email or username".to_string() });
    }
    match code {
        Some(c) => {
            if crate::text::chars_of(c).len() == 0 {
                Err(DriveError { message: "verification code is empty".to_string() })
            } else {
                Ok(())
            }
        },
        None => Ok(()),
    }
}

/// A sign-in that still waits for a second factor is refused, as this
/// client cannot complete one.
pub fn check_second_factor(waiting_for_second_factor: bool) -> (r: Result<(), DriveError>)
    ensures
        waiting_for_second_factor ==> (r matches Err(e) && e.message@
            == "2FA is required for this account but is not yet supported"@),
        !waiting_for_second_factor ==> r is Ok,
{
    if waiting_for_second_factor {
        Err(DriveError { message: "2FA is required for this account but is not yet supported".to_string() })
    } else {
        Ok(())
    }
}

/// Before the service is asked, a sign-in is refused only for an empty
/// username or an empty verification code: any other username, of any
/// length, is accepted, and an empty username is always refused first.
pub proof fn law_sign_in_refusals(u: Seq<char>, code: Option<Seq<char>>)
    ensures
        sign_in_refusal(u, code) is None <==> (u.len() > 0 && !(code matches Some(c) && c.len()
            == 0)),
        u.len() == 0 ==> sign_in_refusal(u, code) == Some(
            "username is empty \u{2014} please enter your email or username"@,
        ),
        u.len() > 0 ==> (code matches Some(c) && c.len() == 0 ==> sign_in_refusal(u, code) == Some(
            "verification code is empty"@,
        )),
{
}

} // verus!
