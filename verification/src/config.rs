//! The client's configuration: which local folders are kept in sync with
//! which remote folders, and in which direction.
use vstd::prelude::*;
use crate::dirs_env::{bytes_of, config_dir, fallback_dir, home_dir, join, opt_view, path_join};
use vstd::utf8::encode_utf8;

verus! {

/// Which way changes flow between a local and a remote folder.
#[derive(Debug, Clone, Copy, PartialEq, Eq, Structural)]
pub enum SyncDirection {
    Bidirectional,
    UploadOnly,
    DownloadOnly,
}

/// A local folder kept in sync with a remote folder.
#[derive(Debug, Clone, PartialEq)]
pub struct SyncPair {
    pub local: String,
    pub remote: String,
    pub direction: SyncDirection,
}

/// The configuration file's contents.
#[derive(Debug, Clone, PartialEq)]
pub struct Config {
    pub sync_pairs: Vec<SyncPair>,
}

impl Default for Config {
    /// The configuration used when no file exists: no sync pairs.
    fn default() -> (c: Self)
        ensures
            c.sync_pairs@.len() == 0,
    {
        Config { sync_pairs: Vec::new() }
    }
}

/// The configuration directory: `dirs::config_dir()`, else `$HOME/.config`,
/// else `/tmp`.
pub open spec fn config_base(config: Option<Seq<u8>>, home: Option<Seq<u8>>) -> Seq<u8> {
    match config {
        Some(c) => c,
        None => match home {
            Some(h) => path_join(h, encode_utf8(".config"@)),
            None => fallback_dir(),
        },
    }
}

/// The path of the configuration file for the given directories.
pub open spec fn config_path_of(config: Option<Seq<u8>>, home: Option<Seq<u8>>) -> Seq<u8> {
    path_join(
        path_join(config_base(config, home), encode_utf8("pdrive"@)),
        encode_utf8("config.toml"@),
    )
}

/// The configuration file's path, given what `dirs::config_dir()` and
/// `dirs::home_dir()` returned.
pub fn config_path_from(config: Option<Vec<u8>>, home: Option<Vec<u8>>) -> (p: Vec<u8>)
    ensures
        p@ == config_path_of(opt_view(config), opt_view(home)),
{
    let base = match config {
        Some(c) => c,
        None => match home {
            Some(h) => join(h.as_slice(), ".config"),
            None => bytes_of("/tmp"),
        },
    };
    let dir = join(base.as_slice(), "pdrive");
    join(dir.as_slice(), "config.toml")
}

/// The configuration file of the client, `<config dir>/pdrive/config.toml`
/// (`/tmp/pdrive/config.toml` when no directory is known), for the user's
/// directories.
pub fn config_path() -> (p: Vec<u8>)
    ensures
        exists|c: Option<Seq<u8>>, h: Option<Seq<u8>>| p@ == config_path_of(c, h),
{
    let config = config_dir();
    let home = match config {
        Some(_) => None,
        None => home_dir(),
    };
    let ghost c = opt_view(config);
    let ghost h = opt_view(home);
    config_path_from(config, home)
}

/// The configuration file lies inside the configuration directory when
/// there is one, and then the home directory plays no part; without one it
/// lies inside the home directory.
pub proof fn law_config_file_location(c: Seq<u8>, h: Seq<u8>, other: Option<Seq<u8>>)
    ensures
        config_path_of(Some(c), other).take(c.len() as int) == c,
        config_path_of(Some(c), Some(h)) == config_path_of(Some(c), None),
        config_path_of(None, Some(h)).take(h.len() as int) == h,
{
    let c1 = path_join(c, encode_utf8("pdrive"@));
    assert(c1.take(c.len() as int) =~= c);
    assert(path_join(c1, encode_utf8("config.toml"@)).take(c.len() as int) =~= c);
    let h1 = path_join(h, encode_utf8(".config"@));
    let h2 = path_join(h1, encode_utf8("pdrive"@));
    assert(h1.take(h.len() as int) =~= h);
    assert(h2.take(h.len() as int) =~= h);
    assert(path_join(h2, encode_utf8("config.toml"@)).take(h.len() as int) =~= h);
}

} // verus!
