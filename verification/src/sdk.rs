//! The drive service client that the drive module is written against.
//! This is its placeholder form: it authenticates anyone, lists one
//! example folder, and accepts every transfer, so that the rest of the
//! client can be built and tested without an account.
use vstd::prelude::*;

verus! {

/// An error reported by the drive service client.
#[derive(Debug, Clone)]
pub struct SdkError(pub String);

impl SdkError {
    /// The error's message: `Proton Drive SDK error: <detail>`.
    pub fn message(&self) -> (m: String)
        ensures
            m@ == "Proton Drive SDK error: "@ + self.0@,
    {
        let mut m = "Proton Drive SDK error: ".to_string();
        m.append(self.0.as_str());
        m
    }
}

/// A file or folder as the service lists it.
#[derive(Debug, Clone)]
pub struct DriveNode {
    pub id: String,
    pub name: String,
    pub is_directory: bool,
    pub size: Option<u64>,
    pub modified_at: Option<i64>,
}

impl DriveNode {
    /// A copy of this node, field by field.
    pub fn duplicate(&self) -> (n: DriveNode)
        ensures
            node_view(n) == node_view(*self),
    {
        DriveNode {
            id: self.id.clone(),
            name: self.name.clone(),
            is_directory: self.is_directory,
            size: self.size,
            modified_at: self.modified_at,
        }
    }
}

/// A node as (id, name, is a directory, size, modification time).
pub open spec fn node_view(n: DriveNode) -> (Seq<char>, Seq<char>, bool, Option<u64>, Option<i64>) {
    (n.id@, n.name@, n.is_directory, n.size, n.modified_at)
}

/// The one entry that the placeholder service lists for every path.
pub open spec fn example_node() -> (Seq<char>, Seq<char>, bool, Option<u64>, Option<i64>) {
    ("stub-id-1"@, "Example Folder"@, true, None, Some(1700000000i64))
}

/// The session token that the placeholder service hands out.
pub open spec fn example_token() -> Seq<char> {
    "stub-session-token"@
}

/// A signed-in connection to the drive service.
pub struct ProtonDriveClient {
    username: String,
}

impl ProtonDriveClient {
    /// The account the client signed in as.
    pub closed spec fn username(&self) -> Seq<char> {
        self.username@
    }

    /// Signs in; the placeholder service accepts any credentials.
    pub fn login(username: &str, _password: &str) -> (r: Result<Self, SdkError>)
        ensures
            r matches Ok(c) && c.username() == username@,
    {
        Ok(ProtonDriveClient { username: username.to_string() })
    }

    /// Lists the entries at a remote path; the placeholder service lists
    /// its one example folder.
    pub fn ls(&self, _path: &str) -> (r: Result<Vec<DriveNode>, SdkError>)
        ensures
            r matches Ok(nodes) && nodes@.len() == 1 && node_view(nodes@[0]) == example_node(),
    {
        let mut nodes: Vec<DriveNode> = Vec::new();
        nodes.push(
            DriveNode {
                id: "stub-id-1".to_string(),
                name: "Example Folder".to_string(),
                is_directory: true,
                size: None,
                modified_at: Some(1700000000),
            },
        );
        Ok(nodes)
    }

    /// Uploads a local file to a remote path; the placeholder service
    /// accepts it.
    pub fn put(&self, _local: &str, _remote_path: &str) -> (r: Result<(), SdkError>)
        ensures
            r is Ok,
    {
        Ok(())
    }

    /// Downloads a remote file to a local path; the placeholder service
    /// reports success.
    pub fn get(&self, _remote_id: &str, _local: &str) -> (r: Result<(), SdkError>)
        ensures
            r is Ok,
    {
        Ok(())
    }

    /// The session token to keep for a later start.
    pub fn session_token(&self) -> (t: Option<String>)
        ensures
            t matches Some(s) && s@ == example_token(),
    {
        Some("stub-session-token".to_string())
    }
}

} // verus!
